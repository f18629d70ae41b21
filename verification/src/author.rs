//! The account that a block author is paid on.
use parity_scale_codec::Encode;
use vstd::prelude::*;

use crate::hexadecimal;

verus! {

/// Whether `author` begins with `0x`.
pub open spec fn has_hex_prefix(author: Seq<char>) -> bool {
    author.len() >= 2 && author[0] == '0' && author[1] == 'x'
}

/// `author` without the `0x` that it may begin with.
pub open spec fn author_digits(author: Seq<char>) -> Seq<char> {
    if has_hex_prefix(author) {
        author.skip(2)
    } else {
        author
    }
}

/// The encoded account that `author` names, or `None` where it names none.
pub open spec fn account_of(author: Seq<char>) -> Option<Seq<u8>> {
    hexadecimal::hash_bytes(author_digits(author))
}

/// `Encode::encode` of the public key that `sr25519::Public::from_h256` makes of `hash`: the 32
/// bytes as they are.
#[verifier::external_body]
fn encode_account(hash: [u8; 32]) -> (encoded: Vec<u8>)
    ensures
        encoded@ == hash@,
{
    sp_core::sr25519::Public::from_h256(sp_core::H256::from(hash)).encode()
}

/// The encoded account that `author` names in hexadecimal, with or without `0x` in front.
pub fn author_account(author: &str) -> (account: Option<Vec<u8>>)
    ensures
        match account {
            Some(encoded) => account_of(author@) == Some(encoded@),
            None => account_of(author@) is None,
        },
{
    let length: usize = author.unicode_len();
    let digits = if length >= 2 && author.get_char(0) == '0' && author.get_char(1) == 'x' {
        assert(author@.subrange(2, length as int) =~= author@.skip(2));
        author.substring_char(2, length)
    } else {
        author
    };
    match hexadecimal::parse_hash(digits) {
        Some(hash) => Some(encode_account(hash)),
        None => None,
    }
}

/// `0x` in front of an author that does not begin with it makes no difference.
pub proof fn hex_prefix_is_optional(author: Seq<char>)
    requires
        !has_hex_prefix(author),
    ensures
        account_of(seq!['0', 'x'] + author) == account_of(author),
{
    assert((seq!['0', 'x'] + author).skip(2) =~= author);
}

/// An account is found again from its lower-case hexadecimal text, with and without `0x`.
pub proof fn account_of_hex_lower(account: Seq<u8>)
    requires
        account.len() == 32,
    ensures
        account_of(hexadecimal::hex_lower(account)) == Some(account),
        account_of(seq!['0', 'x'] + hexadecimal::hex_lower(account)) == Some(account),
{
    hexadecimal::hash_bytes_reads_hex_lower(account);
    let text = hexadecimal::hex_lower(account);
    assert(text[1] != 'x');
    hex_prefix_is_optional(text);
}

/// What stands behind `0x` is read as a hash, and so is a text that does not begin with it.
pub proof fn prefix_is_taken_off_once(author: Seq<char>)
    ensures
        account_of("0x"@ + author) == hexadecimal::hash_bytes(author),
        !"0x"@.is_prefix_of(author) ==> account_of(author) == hexadecimal::hash_bytes(author),
{
    reveal_strlit("0x");
    assert(("0x"@ + author).skip(2) =~= author);
    if has_hex_prefix(author) {
        assert("0x"@ =~= author.subrange(0, 2));
    }
}

/// An author who writes the bytes of an account, two digits of either case for each, with or without
/// `0x` in front, names that account: all 32 bytes, in order.
pub proof fn author_names_what_is_spelt(account: Seq<u8>, author: Seq<char>)
    requires
        account.len() == 32,
        author.len() == 64,
        forall|i: int|
            #![trigger account[i]]
            0 <= i < 32 ==> (author[2 * i] == "0123456789abcdef"@[account[i] as int / 16]
                || author[2 * i] == "0123456789ABCDEF"@[account[i] as int / 16]) && (author[2 * i
                + 1] == "0123456789abcdef"@[account[i] as int % 16] || author[2 * i + 1]
                == "0123456789ABCDEF"@[account[i] as int % 16]),
    ensures
        account_of(author) == Some(account),
        account_of("0x"@ + author) == Some(account),
{
    hexadecimal::either_case_spells(account, author);
    prefix_is_taken_off_once(author);
    hexadecimal::digits_by_place(account[0] as int % 16);
    reveal_strlit("0x");
    if "0x"@.is_prefix_of(author) {
        assert(author[1] == author.subrange(0, 2)[1]);
        assert(author[2 * 0int + 1] == 'x');
        assert(false);
    }
}

} // verus!
