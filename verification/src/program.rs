//! What the program does around the session: before it begins, while it lasts, and after it.
use crate::logger::{Logger, DEBUG, STATUS};
use crate::message::Message;
use crate::text::{joined_with, optional_text, texts};
use vstd::prelude::*;

verus! {

/// Something to be done before the session begins.
#[derive(Debug, PartialEq)]
pub enum Preparation {
    /// Shows the user a message.
    Notify(String),
    SwitchWifiOn,
    /// Waits for the network to come up.
    AwaitNetwork,
    /// Creates the directory for books.
    CreateDirectory,
}

/// [`Preparation`] as a mathematical value.
pub enum PreparationView {
    Notify(Seq<char>),
    SwitchWifiOn,
    AwaitNetwork,
    CreateDirectory,
}

impl View for Preparation {
    type V = PreparationView;

    open spec fn view(&self) -> PreparationView {
        match self {
            Preparation::Notify(text) => PreparationView::Notify(text@),
            Preparation::SwitchWifiOn => PreparationView::SwitchWifiOn,
            Preparation::AwaitNetwork => PreparationView::AwaitNetwork,
            Preparation::CreateDirectory => PreparationView::CreateDirectory,
        }
    }
}

/// Some preparations as mathematical values.
pub open spec fn preparation_views(plan: Seq<Preparation>) -> Seq<PreparationView> {
    plan.map_values(|preparation: Preparation| preparation@)
}

/// The message at a level, if it is shown.
pub open spec fn notice(logger: Logger, text: Seq<char>, level: u8) -> Seq<PreparationView> {
    match logger.shown(seq![text], level) {
        Some(shown) => seq![PreparationView::Notify(shown)],
        None => seq![],
    }
}

/// What is done about the network: nothing where the device is online; otherwise the wireless
/// network is switched on where it is off, and waited for where it is on.
pub open spec fn network_plan(logger: Logger, wifi: bool, online: bool) -> Seq<PreparationView> {
    let start = notice(logger, "Starting plato-smart-device-client!"@, DEBUG);
    if online {
        start
    } else if !wifi {
        start + notice(logger, "Not online!"@, DEBUG) + notice(logger, "Wifi is off!"@, DEBUG)
            + notice(logger, "Establishing a network connection."@, STATUS) + seq![
            PreparationView::SwitchWifiOn,
        ]
    } else {
        start + notice(logger, "Not online!"@, DEBUG) + notice(logger, "Wifi is on!"@, DEBUG)
            + notice(logger, "Waiting for the network to come up."@, STATUS) + seq![
            PreparationView::AwaitNetwork,
        ]
    }
}

/// What is done about the directory for books: it is created where it does not exist.
pub open spec fn directory_plan(logger: Logger, exists: bool) -> Seq<PreparationView> {
    if exists {
        seq![]
    } else {
        notice(logger, "Creating save directory"@, DEBUG) + seq![PreparationView::CreateDirectory]
    }
}

/// Adds a preparation.
fn add_preparation(plan: &mut Vec<Preparation>, preparation: Preparation)
    ensures
        preparation_views(final(plan)@) == preparation_views(old(plan)@) + seq![preparation@],
{
    plan.push(preparation);
    assert(preparation_views(plan@) =~= preparation_views(old(plan)@) + seq![preparation@]);
}

/// Adds a message at a level, if it is shown.
fn add_notice(plan: &mut Vec<Preparation>, logger: &Logger, text: &str, level: u8)
    ensures
        preparation_views(final(plan)@) == preparation_views(old(plan)@) + notice(
            *logger,
            text@,
            level,
        ),
{
    let words = [text];
    let shown = logger.log(&words, level);
    assert(texts(words@) =~= seq![text@]);
    match shown {
        Some(shown) => {
            add_preparation(plan, Preparation::Notify(shown));
        },
        None => {
            assert(preparation_views(plan@) =~= preparation_views(old(plan)@) + notice(
                *logger,
                text@,
                level,
            ));
        },
    }
}

/// What is to be done about the network, in this order.
pub fn prepare_network(logger: &Logger, wifi: bool, online: bool) -> (plan: Vec<Preparation>)
    ensures
        preparation_views(plan@) == network_plan(*logger, wifi, online),
{
    let mut plan: Vec<Preparation> = Vec::new();
    add_notice(&mut plan, logger, "Starting plato-smart-device-client!", DEBUG);
    assert(preparation_views(plan@) =~= network_plan(*logger, wifi, true));
    if !online {
        add_notice(&mut plan, logger, "Not online!", DEBUG);
        if !wifi {
            add_notice(&mut plan, logger, "Wifi is off!", DEBUG);
            add_notice(&mut plan, logger, "Establishing a network connection.", STATUS);
            add_preparation(&mut plan, Preparation::SwitchWifiOn);
        } else {
            add_notice(&mut plan, logger, "Wifi is on!", DEBUG);
            add_notice(&mut plan, logger, "Waiting for the network to come up.", STATUS);
            add_preparation(&mut plan, Preparation::AwaitNetwork);
        }
    }
    plan
}

/// What is to be done about the directory for books, in this order.
pub fn prepare_directory(logger: &Logger, exists: bool) -> (plan: Vec<Preparation>)
    ensures
        preparation_views(plan@) == directory_plan(*logger, exists),
{
    let mut plan: Vec<Preparation> = Vec::new();
    assert(preparation_views(plan@) =~= seq![]);
    if !exists {
        add_notice(&mut plan, logger, "Creating save directory", DEBUG);
        add_preparation(&mut plan, Preparation::CreateDirectory);
        assert(preparation_views(plan@) =~= directory_plan(*logger, exists));
    }
    plan
}

/// Whether the program is to end, given the message from the session, if one has come.
pub fn is_over(message: &Option<Message>) -> (over: bool)
    ensures
        over <==> message == Some(Message::Exit),
{
    match message {
        Some(Message::Exit) => true,
        _ => false,
    }
}

/// The notification at the end of the program, if it is to be shown.
pub fn farewell(logger: &Logger) -> (notification: Option<String>)
    ensures
        optional_text(notification) == logger.shown(seq!["Bye bye!"@], STATUS),
{
    let words = ["Bye bye!"];
    assert(texts(words@) =~= seq!["Bye bye!"@]);
    logger.status(&words)
}

/// The network is left alone exactly where the device is online, and is either switched on or
/// waited for, by whether it is off or on, where it is not.
pub proof fn law_network_is_brought_up(logger: Logger, wifi: bool, online: bool)
    ensures
        network_plan(logger, wifi, online).contains(PreparationView::SwitchWifiOn) <==> !online
            && !wifi,
        network_plan(logger, wifi, online).contains(PreparationView::AwaitNetwork) <==> !online
            && wifi,
{
    let plan = network_plan(logger, wifi, online);
    if !online {
        assert(plan.last() == plan[plan.len() - 1]);
    }
}

/// What the user gets to see before the session begins, by the level of the logger: all of it to
/// those who debug, the state of the network from the level of status messages on, and nothing
/// below; the network is brought up in any case.
pub proof fn law_preparations_by_level(logger: Logger)
    ensures
        logger.level() >= 3 ==> network_plan(logger, true, true) == seq![
            PreparationView::Notify("Starting plato-smart-device-client!"@),
        ] && network_plan(logger, false, true) == network_plan(logger, true, true) && network_plan(
            logger,
            false,
            false,
        ) == seq![
            PreparationView::Notify("Starting plato-smart-device-client!"@),
            PreparationView::Notify("Not online!"@),
            PreparationView::Notify("Wifi is off!"@),
            PreparationView::Notify("Establishing a network connection."@),
            PreparationView::SwitchWifiOn,
        ] && network_plan(logger, true, false) == seq![
            PreparationView::Notify("Starting plato-smart-device-client!"@),
            PreparationView::Notify("Not online!"@),
            PreparationView::Notify("Wifi is on!"@),
            PreparationView::Notify("Waiting for the network to come up."@),
            PreparationView::AwaitNetwork,
        ] && directory_plan(logger, false) == seq![
            PreparationView::Notify("Creating save directory"@),
            PreparationView::CreateDirectory,
        ],
        1 <= logger.level() < 3 ==> network_plan(logger, false, false) == seq![
            PreparationView::Notify("Establishing a network connection."@),
            PreparationView::SwitchWifiOn,
        ] && network_plan(logger, true, false) == seq![
            PreparationView::Notify("Waiting for the network to come up."@),
            PreparationView::AwaitNetwork,
        ],
        logger.level() == 0 ==> network_plan(logger, false, false) == seq![
            PreparationView::SwitchWifiOn,
        ] && network_plan(logger, true, false) == seq![PreparationView::AwaitNetwork],
        logger.level() < 3 ==> network_plan(logger, true, true) == Seq::<PreparationView>::empty()
            && network_plan(logger, false, true) == Seq::<PreparationView>::empty()
            && directory_plan(logger, false) == seq![PreparationView::CreateDirectory],
        directory_plan(logger, true) == Seq::<PreparationView>::empty(),
{
    lemma_notice(logger, "Starting plato-smart-device-client!"@, DEBUG);
    lemma_notice(logger, "Not online!"@, DEBUG);
    lemma_notice(logger, "Wifi is off!"@, DEBUG);
    lemma_notice(logger, "Wifi is on!"@, DEBUG);
    lemma_notice(logger, "Establishing a network connection."@, STATUS);
    lemma_notice(logger, "Waiting for the network to come up."@, STATUS);
    lemma_notice(logger, "Creating save directory"@, DEBUG);
}

/// A message of one text is shown as that text.
proof fn lemma_notice(logger: Logger, text: Seq<char>, level: u8)
    ensures
        level <= logger.level() ==> notice(logger, text, level) == seq![
            PreparationView::Notify(text),
        ],
        level > logger.level() ==> notice(logger, text, level) == Seq::<PreparationView>::empty(),
{
    assert(joined_with(seq![text], seq![' ']) == text);
}

} // verus!
