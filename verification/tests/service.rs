use kulupu::inherents::PalletIdentifiers;
use kulupu::service::{new_full, Action, Channel, Startup};

fn begin(is_authority: bool) -> Startup {
    let ids = PalletIdentifiers { anyupgrade: *b"anyupgra", rewards: *b"rewards_" };
    let (startup, providers) =
        new_full(is_authority, None, 4, 500, 9955, &ids, vec![1]).unwrap();
    assert!(providers.registered.has_provider(b"timstap0"));
    assert_eq!(providers.pending.len(), 1);
    startup
}

fn run(startup: &mut Startup, steps: usize) -> Vec<Action> {
    let mut actions = vec![startup.action()];
    for _ in 0..steps {
        actions.push(startup.advance::<()>(Ok(())).unwrap());
    }
    actions
}

fn common() -> Vec<Action> {
    vec![
        Action::MakeClient,
        Action::SelectLongestChain,
        Action::MakeTransactionPool,
        Action::MakeImportQueue {
            sender: Channel::Import,
            receiver: Channel::Import,
            check_inherents_after: 0,
        },
        Action::AttachNetworkProtocol,
        Action::AttachFinalityProofProvider,
        Action::Build,
        Action::StartWebServer {
            port: 9955,
            seal_sender: Channel::Seals,
            params_receiver: Channel::Params,
        },
    ]
}

#[test]
fn authority_mines_last() {
    let mut expected = common();
    expected.push(Action::StartMining {
        params_sender: Channel::Params,
        seal_receiver: Channel::Seals,
        preruntime: None,
        round: 500,
        build_time_secs: 2,
    });
    expected.push(Action::Finish);
    expected.push(Action::Finish);
    assert_eq!(run(&mut begin(true), 10), expected);
}

#[test]
fn other_node_does_not_mine() {
    let mut expected = common();
    expected.push(Action::Finish);
    expected.push(Action::Finish);
    assert_eq!(run(&mut begin(false), 9), expected);
}

#[test]
fn every_failure_ends_the_start() {
    for steps in 0..9 {
        let mut startup = begin(true);
        run(&mut startup, steps);
        assert_eq!(startup.advance(Err("broken")), Err("broken"));
        assert_eq!(startup.action(), Action::Abort);
        assert_eq!(startup.advance::<&str>(Ok(())), Ok(Action::Abort));
        assert_eq!(startup.advance(Err("again")), Ok(Action::Abort));
    }
}

#[test]
fn failure_after_the_end_changes_nothing() {
    let mut startup = begin(false);
    run(&mut startup, 8);
    assert_eq!(startup.advance(Err("late")), Ok(Action::Finish));
    assert_eq!(startup.action(), Action::Finish);
}
