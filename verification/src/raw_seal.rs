//! What is made of the seals that miners send.
use vstd::prelude::*;

use crate::hexadecimal;

verus! {

/// The parameters of a request.
#[verifier::external_type_specification]
#[verifier::external_body]
pub struct ExParams(jsonrpc_core::Params);

/// The error that a request is answered with.
#[verifier::external_type_specification]
#[verifier::external_body]
pub struct ExRpcError(jsonrpc_core::Error);

/// The parameters of a request that gives them by position: for each, the integer that it is, or
/// `None` where it is something else. `None` as a whole for a request that gives them by name, or
/// gives none.
pub uninterp spec fn positional(params: jsonrpc_core::Params) -> Option<Seq<Option<int>>>;

/// Whether every parameter is an integer that fits a byte.
pub open spec fn all_bytes(items: Seq<Option<int>>) -> bool {
    forall|i: int| 0 <= i < items.len() ==> (#[trigger] items[i] matches Some(n) && 0 <= n <= 255)
}

/// The bytes of a seal that is given by position, one parameter for each byte, or `None` where what
/// is given is no seal.
pub open spec fn seal_of(items: Option<Seq<Option<int>>>) -> Option<Seq<u8>> {
    match items {
        Some(items) => if all_bytes(items) {
            Some(items.map_values(|item: Option<int>| item->0 as u8))
        } else {
            None
        },
        None => None,
    }
}

/// The text that a seal is handed on as. What is no seal is handed on like a single zero byte.
pub open spec fn message_of(seal: Option<Seq<u8>>) -> Seq<char> {
    match seal {
        Some(bytes) => hexadecimal::hex_lower(bytes),
        None => hexadecimal::hex_lower(seq![0u8]),
    }
}

/// `Params::parse` into bytes: succeeds if and only if the parameters are given by position and each
/// is an integer that fits a byte.
#[verifier::external_body]
fn parse_bytes(params: jsonrpc_core::Params) -> (parsed: Result<Vec<u8>, jsonrpc_core::Error>)
    ensures
        match parsed {
            Ok(bytes) => seal_of(positional(params)) == Some(bytes@),
            Err(_) => seal_of(positional(params)) is None,
        },
{
    params.parse::<Vec<u8>>()
}

/// The text that a seal is handed on as once the parameters of the request have been parsed.
pub fn seal_message<E>(parsed: Result<Vec<u8>, E>) -> (message: String)
    requires
        parsed matches Ok(bytes) ==> 2 * bytes@.len() <= isize::MAX,
    ensures
        message@ == message_of(
            match parsed {
                Ok(bytes) => Some(bytes@),
                Err(_) => None,
            },
        ),
{
    match parsed {
        Ok(bytes) => hexadecimal::encode(&bytes),
        Err(_) => {
            let zero: Vec<u8> = vec![0];
            assert(zero@ =~= seq![0u8]);
            hexadecimal::encode(&zero)
        },
    }
}

/// Whether the text of a seal fits into a string.
pub open spec fn text_fits(seal: Option<Seq<u8>>) -> bool {
    seal matches Some(bytes) ==> 2 * bytes.len() <= isize::MAX
}

/// The text that the seal in a request is handed on as. `None` where a string cannot hold it.
pub fn raw_seal(params: jsonrpc_core::Params) -> (message: Option<String>)
    ensures
        match message {
            Some(text) => text_fits(seal_of(positional(params))) && text@ == message_of(
                seal_of(positional(params)),
            ),
            None => !text_fits(seal_of(positional(params))),
        },
        message is None <==> (seal_of(positional(params)) matches Some(seal) && 2 * seal.len()
            > isize::MAX),
        message matches Some(text) ==> match seal_of(positional(params)) {
            Some(seal) => text@ == hexadecimal::hex_lower(seal),
            None => text@ == "00"@,
        },
{
    proof {
        seal_is_written_out(Seq::empty());
    }
    let parsed = parse_bytes(params);
    if let Ok(bytes) = &parsed {
        if bytes.len() > isize::MAX as usize / 2 {
            return None;
        }
    }
    Some(seal_message(parsed))
}

/// Whatever is no seal is handed on as `00`.
pub proof fn refused_seal_is_zero(items: Option<Seq<Option<int>>>)
    requires
        seal_of(items) is None,
    ensures
        message_of(seal_of(items)) == seq!['0', '0'],
{
    assert(message_of(None) =~= seq!['0', '0']);
}

/// Two seals that are handed on as the same text are the same seal.
pub proof fn message_tells_seals_apart(a: Seq<u8>, b: Seq<u8>)
    requires
        message_of(Some(a)) == message_of(Some(b)),
    ensures
        a == b,
{
    hexadecimal::hex_lower_is_injective(a, b);
}

/// Every byte string is the seal of the request that gives its bytes by position.
pub proof fn every_seal_can_be_sent(seal: Seq<u8>)
    ensures
        seal_of(Some(seal.map_values(|byte: u8| Some(byte as int)))) == Some(seal),
{
    let items = seal.map_values(|byte: u8| Some(byte as int));
    assert(all_bytes(items));
    assert(items.map_values(|item: Option<int>| item->0 as u8) =~= seal);
    assert(seal_of(Some(items))->0 =~= seal);
}

/// A request holds a seal if and only if it gives its parameters by position and each is an integer
/// from 0 to 255; the seal then has these integers for bytes, each in its place.
pub proof fn seal_is_what_is_given(items: Seq<Option<int>>)
    ensures
        seal_of(None) is None,
        seal_of(Some(items)) is Some <==> forall|i: int|
            0 <= i < items.len() ==> (#[trigger] items[i] matches Some(n) && 0 <= n <= 255),
        seal_of(Some(items)) matches Some(seal) ==> seal.len() == items.len() && forall|i: int|
            0 <= i < items.len() ==> #[trigger] items[i] == Some(seal[i] as int),
{
    if let Some(seal) = seal_of(Some(items)) {
        assert forall|i: int| 0 <= i < items.len() implies #[trigger] items[i] == Some(
            seal[i] as int,
        ) by {
            assert(items[i] matches Some(n) && 0 <= n <= 255);
        }
    }
}

/// A seal of any length is handed on as two characters of `0123456789abcdef` for each of its bytes,
/// in order; what is no seal as `00`.
pub proof fn seal_is_written_out(seal: Seq<u8>)
    ensures
        message_of(None) == "00"@,
        message_of(Some(seal)).len() == 2 * seal.len(),
        forall|i: int|
            #![trigger seal[i]]
            0 <= i < seal.len() ==> message_of(Some(seal))[2 * i]
                == "0123456789abcdef"@[seal[i] as int / 16] && message_of(Some(seal))[2 * i + 1]
                == "0123456789abcdef"@[seal[i] as int % 16],
        hexadecimal::hex_bytes(message_of(Some(seal))) == Some(seal),
{
    reveal_strlit("00");
    assert(message_of(None) =~= "00"@);
    hexadecimal::hex_lower_by_place(seal);
    hexadecimal::hex_bytes_reads_hex_lower(seal);
}

/// Every seal whose text a string can hold fits, and so does what is no seal; no other seal does.
pub proof fn every_text_that_a_string_holds_fits(seal: Seq<u8>)
    ensures
        text_fits(None),
        text_fits(Some(seal)) <==> message_of(Some(seal)).len() <= isize::MAX,
        text_fits(Some(seal)) <==> 2 * seal.len() <= isize::MAX,
{
}

} // verus!
