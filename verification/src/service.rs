//! How a full node is started: which part comes after which, what each is given, and what is left
//! undone when one fails.
//!
//! The node performs an [`Action`], hands its outcome to [`Startup::advance`], and gets the next one.
use vstd::prelude::*;

use crate::inherents;
use crate::inherents::{
    kulupu_inherent_data_providers, NodeProviders, PalletIdentifiers, ServiceError,
};

verus! {

/// The block from which on an import checks inherents.
pub const CHECK_INHERENTS_AFTER: u32 = 0;

/// How many seconds a block may be built for.
pub const BUILD_TIME_SECS: u64 = 2;

/// A channel of texts. Each has one sending and one receiving end.
#[derive(Clone, Copy, Debug, PartialEq, Eq, Structural)]
pub enum Channel {
    /// Mining parameters, on their way to the miners.
    Params,
    /// Seals, on their way from the miners.
    Seals,
    /// What the algorithm that checks imported blocks sends and asks for. It holds both ends.
    Import,
}

/// How far the start of a node has come: the part that is being started, or how it ended.
#[derive(Clone, Copy, Debug, PartialEq, Eq, Structural)]
pub enum Stage {
    Client,
    SelectChain,
    TransactionPool,
    ImportQueue,
    NetworkProtocol,
    FinalityProofProvider,
    Build,
    WebServer,
    Mining,
    Done,
    Failed,
}

/// What is to be done next.
#[derive(Debug, PartialEq, Eq)]
pub enum Action {
    /// Make a full client of the configuration.
    MakeClient,
    /// Select the longest chain.
    SelectLongestChain,
    /// Make the transaction pool.
    MakeTransactionPool,
    /// Make the import queue, whose algorithm is given these ends of channels.
    MakeImportQueue { sender: Channel, receiver: Channel, check_inherents_after: u32 },
    /// Attach the network protocol.
    AttachNetworkProtocol,
    /// Attach the provider of finality proofs, which provides none.
    AttachFinalityProofProvider,
    /// Build the service.
    Build,
    /// Listen to miners: send their seals on one channel, take parameters for them from the other.
    StartWebServer { port: u32, seal_sender: Channel, params_receiver: Channel },
    /// Mine, with an algorithm that is given these ends of channels.
    StartMining {
        params_sender: Channel,
        seal_receiver: Channel,
        preruntime: Option<Vec<u8>>,
        round: u32,
        build_time_secs: u64,
    },
    /// Nothing: the service runs.
    Finish,
    /// Nothing: the service could not be made.
    Abort,
}

/// What a start depends on, and how far it has come.
pub ghost struct StartupModel {
    pub stage: Stage,
    pub is_authority: bool,
    pub round: u32,
    pub miner_listen_port: u32,
}

/// Whether nothing comes after `stage`.
pub open spec fn is_final(stage: Stage) -> bool {
    stage == Stage::Done || stage == Stage::Failed
}

/// The stages of a start in which nothing fails.
pub open spec fn stages_in_order(is_authority: bool) -> Seq<Stage> {
    let common = seq![
        Stage::Client,
        Stage::SelectChain,
        Stage::TransactionPool,
        Stage::ImportQueue,
        Stage::NetworkProtocol,
        Stage::FinalityProofProvider,
        Stage::Build,
        Stage::WebServer,
    ];
    if is_authority {
        common + seq![Stage::Mining, Stage::Done]
    } else {
        common + seq![Stage::Done]
    }
}

/// The stage that follows when what `stage` asks for has succeeded, or has not.
pub open spec fn next_stage(stage: Stage, is_authority: bool, succeeded: bool) -> Stage {
    if is_final(stage) {
        stage
    } else if !succeeded {
        Stage::Failed
    } else {
        match stage {
            Stage::Client => Stage::SelectChain,
            Stage::SelectChain => Stage::TransactionPool,
            Stage::TransactionPool => Stage::ImportQueue,
            Stage::ImportQueue => Stage::NetworkProtocol,
            Stage::NetworkProtocol => Stage::FinalityProofProvider,
            Stage::FinalityProofProvider => Stage::Build,
            Stage::Build => Stage::WebServer,
            Stage::WebServer => if is_authority {
                Stage::Mining
            } else {
                Stage::Done
            },
            _ => Stage::Done,
        }
    }
}

/// What is to be done in each stage.
pub open spec fn action_of(startup: StartupModel) -> Action {
    match startup.stage {
        Stage::Client => Action::MakeClient,
        Stage::SelectChain => Action::SelectLongestChain,
        Stage::TransactionPool => Action::MakeTransactionPool,
        Stage::ImportQueue => Action::MakeImportQueue {
            sender: Channel::Import,
            receiver: Channel::Import,
            check_inherents_after: CHECK_INHERENTS_AFTER,
        },
        Stage::NetworkProtocol => Action::AttachNetworkProtocol,
        Stage::FinalityProofProvider => Action::AttachFinalityProofProvider,
        Stage::Build => Action::Build,
        Stage::WebServer => Action::StartWebServer {
            port: startup.miner_listen_port,
            seal_sender: Channel::Seals,
            params_receiver: Channel::Params,
        },
        Stage::Mining => Action::StartMining {
            params_sender: Channel::Params,
            seal_receiver: Channel::Seals,
            preruntime: None,
            round: startup.round,
            build_time_secs: BUILD_TIME_SECS,
        },
        Stage::Done => Action::Finish,
        Stage::Failed => Action::Abort,
    }
}

/// The start of a node.
#[derive(Clone, Copy, Debug)]
pub struct Startup {
    stage: Stage,
    is_authority: bool,
    round: u32,
    miner_listen_port: u32,
}

impl View for Startup {
    type V = StartupModel;

    closed spec fn view(&self) -> StartupModel {
        StartupModel {
            stage: self.stage,
            is_authority: self.is_authority,
            round: self.round,
            miner_listen_port: self.miner_listen_port,
        }
    }
}

impl Startup {
    /// Only an authority mines.
    pub open spec fn well_formed(&self) -> bool {
        self@.stage == Stage::Mining ==> self@.is_authority
    }

    /// What is to be done now.
    pub fn action(&self) -> (action: Action)
        ensures
            action == action_of(self@),
    {
        match self.stage {
            Stage::Client => Action::MakeClient,
            Stage::SelectChain => Action::SelectLongestChain,
            Stage::TransactionPool => Action::MakeTransactionPool,
            Stage::ImportQueue => Action::MakeImportQueue {
                sender: Channel::Import,
                receiver: Channel::Import,
                check_inherents_after: CHECK_INHERENTS_AFTER,
            },
            Stage::NetworkProtocol => Action::AttachNetworkProtocol,
            Stage::FinalityProofProvider => Action::AttachFinalityProofProvider,
            Stage::Build => Action::Build,
            Stage::WebServer => Action::StartWebServer {
                port: self.miner_listen_port,
                seal_sender: Channel::Seals,
                params_receiver: Channel::Params,
            },
            Stage::Mining => Action::StartMining {
                params_sender: Channel::Params,
                seal_receiver: Channel::Seals,
                preruntime: None,
                round: self.round,
                build_time_secs: BUILD_TIME_SECS,
            },
            Stage::Done => Action::Finish,
            Stage::Failed => Action::Abort,
        }
    }

    /// Takes the outcome of what [`Startup::action`] asked for, and says what is to be done next. An
    /// error ends the start and is handed back. Once the start has ended nothing changes any more.
    pub fn advance<E>(&mut self, outcome: Result<(), E>) -> (next: Result<Action, E>)
        ensures
            final(self)@ == (StartupModel {
                stage: next_stage(old(self)@.stage, old(self)@.is_authority, outcome is Ok),
                ..old(self)@
            }),
            match (outcome, next) {
                (Err(error), Err(returned)) => !is_final(old(self)@.stage) && returned == error,
                (Err(_), Ok(action)) => is_final(old(self)@.stage) && action == action_of(
                    final(self)@,
                ),
                (Ok(_), Ok(action)) => action == action_of(final(self)@),
                (Ok(_), Err(_)) => false,
            },
            next is Err <==> outcome is Err && old(self)@.stage != Stage::Done && old(self)@.stage
                != Stage::Failed,
            next matches Err(returned) ==> outcome == Err::<(), E>(returned),
            old(self).well_formed() ==> final(self).well_formed(),
    {
        match self.stage {
            Stage::Done | Stage::Failed => {
                return Ok(self.action());
            },
            _ => {},
        }
        if let Err(error) = outcome {
            self.stage = Stage::Failed;
            return Err(error);
        }
        self.stage =
        match self.stage {
            Stage::Client => Stage::SelectChain,
            Stage::SelectChain => Stage::TransactionPool,
            Stage::TransactionPool => Stage::ImportQueue,
            Stage::ImportQueue => Stage::NetworkProtocol,
            Stage::NetworkProtocol => Stage::FinalityProofProvider,
            Stage::FinalityProofProvider => Stage::Build,
            Stage::Build => Stage::WebServer,
            Stage::WebServer => {
                if self.is_authority {
                    Stage::Mining
                } else {
                    Stage::Done
                }
            },
            _ => Stage::Done,
        };
        Ok(self.action())
    }
}

/// Begins the start of a full node, and says which inherent data providers it has.
///
/// The number of threads is up to the miners: it changes nothing here.
pub fn new_full(
    is_authority: bool,
    author: Option<&str>,
    _threads: usize,
    round: u32,
    miner_listen_port: u32,
    identifiers: &PalletIdentifiers,
    slag_ravine: Vec<u8>,
) -> (result: Result<(Startup, NodeProviders), ServiceError>)
    requires
        inherents::author_acceptable(author, *identifiers),
    ensures
        match result {
            Ok((startup, providers)) => {
                &&& startup@ == (StartupModel {
                    stage: Stage::Client,
                    is_authority,
                    round,
                    miner_listen_port,
                })
                &&& startup.well_formed()
                &&& inherents::registered(providers.registered) == seq![
                    inherents::timestamp_identifier(),
                ]
                &&& inherents::models(providers.pending@) == inherents::pending_providers(
                    inherents::named_account(author),
                    *identifiers,
                    slag_ravine@,
                )
                &&& providers.well_formed()
            },
            Err(_) => false,
        },
{
    let inherent_data_providers = kulupu_inherent_data_providers(
        author,
        identifiers,
        slag_ravine,
    )?;
    let startup = Startup { stage: Stage::Client, is_authority, round, miner_listen_port };
    Ok((startup, inherent_data_providers))
}

/// The stage that a start has come to after `outcomes`, each of which says whether what was asked
/// for succeeded.
pub open spec fn stage_after(is_authority: bool, outcomes: Seq<bool>) -> Stage
    decreases outcomes.len(),
{
    if outcomes.len() == 0 {
        Stage::Client
    } else {
        next_stage(
            stage_after(is_authority, outcomes.drop_last()),
            is_authority,
            outcomes.last(),
        )
    }
}

/// While nothing fails, the stages follow in order, and the last one is kept.
pub proof fn stages_follow_in_order(is_authority: bool, outcomes: Seq<bool>)
    requires
        forall|i: int| 0 <= i < outcomes.len() ==> outcomes[i],
    ensures
        ({
            let order = stages_in_order(is_authority);
            stage_after(is_authority, outcomes) == if outcomes.len() < order.len() {
                order[outcomes.len() as int]
            } else {
                order.last()
            }
        }),
    decreases outcomes.len(),
{
    if outcomes.len() > 0 {
        stages_follow_in_order(is_authority, outcomes.drop_last());
    }
}

/// The first failure ends the start for good, where the start has not ended well before it.
pub proof fn first_failure_is_final(is_authority: bool, outcomes: Seq<bool>, first: int)
    requires
        0 <= first < outcomes.len(),
        !outcomes[first],
        forall|i: int| 0 <= i < first ==> outcomes[i],
        first < stages_in_order(is_authority).len() - 1,
    ensures
        stage_after(is_authority, outcomes) == Stage::Failed,
    decreases outcomes.len(),
{
    if first < outcomes.len() - 1 {
        first_failure_is_final(is_authority, outcomes.drop_last(), first);
    } else {
        stages_follow_in_order(is_authority, outcomes.drop_last());
    }
}

/// The web server is started if and only if the seven parts before it have been made, and mining
/// begins if and only if the web server has been started as well and the node is an authority.
pub proof fn web_server_and_mining_come_last(is_authority: bool, outcomes: Seq<bool>)
    ensures
        stage_after(is_authority, outcomes) == Stage::WebServer <==> outcomes.len() == 7 && (forall|
            i: int,
        |
            0 <= i < 7 ==> outcomes[i]),
        stage_after(is_authority, outcomes) == Stage::Mining <==> is_authority && outcomes.len()
            == 8 && (forall|i: int| 0 <= i < 8 ==> outcomes[i]),
{
    if forall|i: int| 0 <= i < outcomes.len() ==> outcomes[i] {
        stages_follow_in_order(is_authority, outcomes);
    } else {
        lemma_some_failure(is_authority, outcomes);
    }
}

/// After a failure the start has ended, one way or the other.
proof fn lemma_some_failure(is_authority: bool, outcomes: Seq<bool>)
    requires
        exists|i: int| 0 <= i < outcomes.len() && !outcomes[i],
    ensures
        is_final(stage_after(is_authority, outcomes)),
    decreases outcomes.len(),
{
    if outcomes.last() {
        let i = choose|i: int| 0 <= i < outcomes.len() && !outcomes[i];
        assert(!outcomes.drop_last()[i]);
        lemma_some_failure(is_authority, outcomes.drop_last());
    }
}

/// Parameters go from the mining algorithm to the web server and seals the other way, on two
/// channels; the algorithm that checks imported blocks holds neither.
pub proof fn channels_are_joined(
    importing: StartupModel,
    serving: StartupModel,
    mining: StartupModel,
)
    requires
        importing.stage == Stage::ImportQueue,
        serving.stage == Stage::WebServer,
        mining.stage == Stage::Mining,
    ensures
        match (action_of(importing), action_of(serving), action_of(mining)) {
            (
                Action::MakeImportQueue { sender, receiver, .. },
                Action::StartWebServer { seal_sender, params_receiver, .. },
                Action::StartMining { params_sender, seal_receiver, .. },
            ) => {
                &&& params_sender == params_receiver
                &&& seal_sender == seal_receiver
                &&& params_sender != seal_sender
                &&& sender == receiver
                &&& sender != params_sender
                &&& sender != seal_sender
            },
            _ => false,
        },
{
}

/// Whether `action` gives someone the sending end of `channel`.
pub open spec fn gives_sender(action: Action, channel: Channel) -> bool {
    match action {
        Action::MakeImportQueue { sender, .. } => sender == channel,
        Action::StartWebServer { seal_sender, .. } => seal_sender == channel,
        Action::StartMining { params_sender, .. } => params_sender == channel,
        _ => false,
    }
}

/// Whether `action` gives someone the receiving end of `channel`.
pub open spec fn gives_receiver(action: Action, channel: Channel) -> bool {
    match action {
        Action::MakeImportQueue { receiver, .. } => receiver == channel,
        Action::StartWebServer { params_receiver, .. } => params_receiver == channel,
        Action::StartMining { seal_receiver, .. } => seal_receiver == channel,
        _ => false,
    }
}

/// On a node that is no authority, whatever succeeds or fails, mining never begins: nobody is ever
/// given the sending end for parameters nor the receiving end for seals.
pub proof fn no_authority_leaves_miners_alone(startup: StartupModel, outcomes: Seq<bool>)
    requires
        !startup.is_authority,
        startup.stage == stage_after(false, outcomes),
    ensures
        !(action_of(startup) is StartMining),
        !gives_sender(action_of(startup), Channel::Params),
        !gives_receiver(action_of(startup), Channel::Seals),
{
    web_server_and_mining_come_last(false, outcomes);
}

/// Those two ends are given to the mining algorithm alone.
pub proof fn only_mining_serves_miners(startup: StartupModel)
    ensures
        gives_sender(action_of(startup), Channel::Params) <==> startup.stage == Stage::Mining,
        gives_receiver(action_of(startup), Channel::Seals) <==> startup.stage == Stage::Mining,
{
}

/// A web server is started on the port that the start was given, and mining with the round that it
/// was given, no pre-runtime data, and two seconds to build a block. An import checks inherents from
/// block 0 on.
pub proof fn actions_carry_what_was_given(startup: StartupModel)
    ensures
        startup.stage == Stage::WebServer ==> action_of(startup) == (Action::StartWebServer {
            port: startup.miner_listen_port,
            seal_sender: Channel::Seals,
            params_receiver: Channel::Params,
        }),
        startup.stage == Stage::Mining ==> action_of(startup) == (Action::StartMining {
            params_sender: Channel::Params,
            seal_receiver: Channel::Seals,
            preruntime: None,
            round: startup.round,
            build_time_secs: 2,
        }),
        startup.stage == Stage::ImportQueue ==> action_of(startup) == (Action::MakeImportQueue {
            sender: Channel::Import,
            receiver: Channel::Import,
            check_inherents_after: 0,
        }),
        action_of(startup) matches Action::StartWebServer { port, .. } ==> port
            == startup.miner_listen_port,
        action_of(startup) matches Action::StartMining { round, .. } ==> round == startup.round,
{
}

/// A start begins with the client. Whatever has been done, its success leads to what comes next and
/// its failure to the end; a start that has ended stays as it is.
pub proof fn each_action_leads_to_the_next(startup: StartupModel)
    ensures
        startup.stage == Stage::Client ==> action_of(startup) == Action::MakeClient,
        ({
            let next = action_of(
                StartupModel {
                    stage: next_stage(startup.stage, startup.is_authority, true),
                    ..startup
                },
            );
            match action_of(startup) {
                Action::MakeClient => next == Action::SelectLongestChain,
                Action::SelectLongestChain => next == Action::MakeTransactionPool,
                Action::MakeTransactionPool => next == (Action::MakeImportQueue {
                    sender: Channel::Import,
                    receiver: Channel::Import,
                    check_inherents_after: 0,
                }),
                Action::MakeImportQueue { .. } => next == Action::AttachNetworkProtocol,
                Action::AttachNetworkProtocol => next == Action::AttachFinalityProofProvider,
                Action::AttachFinalityProofProvider => next == Action::Build,
                Action::Build => next == (Action::StartWebServer {
                    port: startup.miner_listen_port,
                    seal_sender: Channel::Seals,
                    params_receiver: Channel::Params,
                }),
                Action::StartWebServer { .. } => if startup.is_authority {
                    next == (Action::StartMining {
                        params_sender: Channel::Params,
                        seal_receiver: Channel::Seals,
                        preruntime: None,
                        round: startup.round,
                        build_time_secs: 2,
                    })
                } else {
                    next == Action::Finish
                },
                Action::StartMining { .. } => next == Action::Finish,
                Action::Finish => next == Action::Finish,
                Action::Abort => next == Action::Abort,
            }
        }),
        ({
            let next = action_of(
                StartupModel {
                    stage: next_stage(startup.stage, startup.is_authority, false),
                    ..startup
                },
            );
            next == if action_of(startup) == Action::Finish {
                Action::Finish
            } else {
                Action::Abort
            }
        }),
{
}

/// Two starts of one stage do the same if they were given the same port and round, and where a web
/// server or mining is started only if they were.
pub proof fn starts_differ_by_what_was_given(a: StartupModel, b: StartupModel)
    requires
        a.stage == b.stage,
    ensures
        action_of(a) == action_of(b) <==> (a.stage == Stage::WebServer ==> a.miner_listen_port
            == b.miner_listen_port) && (a.stage == Stage::Mining ==> a.round == b.round),
{
}

/// What a start does after `outcomes` in which nothing has failed, from its first action to its last,
/// after which nothing is left to be done.
pub proof fn actions_follow_in_order(startup: StartupModel, outcomes: Seq<bool>)
    requires
        startup.stage == stage_after(startup.is_authority, outcomes),
        forall|i: int| 0 <= i < outcomes.len() ==> outcomes[i],
    ensures
        ({
            let common = seq![
                Action::MakeClient,
                Action::SelectLongestChain,
                Action::MakeTransactionPool,
                Action::MakeImportQueue {
                    sender: Channel::Import,
                    receiver: Channel::Import,
                    check_inherents_after: 0,
                },
                Action::AttachNetworkProtocol,
                Action::AttachFinalityProofProvider,
                Action::Build,
                Action::StartWebServer {
                    port: startup.miner_listen_port,
                    seal_sender: Channel::Seals,
                    params_receiver: Channel::Params,
                },
            ];
            let mining = if startup.is_authority {
                seq![
                    Action::StartMining {
                        params_sender: Channel::Params,
                        seal_receiver: Channel::Seals,
                        preruntime: None,
                        round: startup.round,
                        build_time_secs: 2,
                    },
                ]
            } else {
                Seq::<Action>::empty()
            };
            let actions = common + mining;
            action_of(startup) == if outcomes.len() < actions.len() {
                actions[outcomes.len() as int]
            } else {
                Action::Finish
            }
        }),
{
    stages_follow_in_order(startup.is_authority, outcomes);
}

} // verus!
