//! Layered services: ordered rules that decide what becomes of each unit a
//! service receives from the layer below.
//!
//! A service does no input or output of its own. `process` takes the bytes
//! that came in and says what to do with them; whoever runs the service
//! receives, sends and logs.

use crate::common::pdu::{Pdu, Wrapper};
use crate::common::serialise::{DeserialiseError, Fault, Serialise};
use vstd::prelude::*;

verus! {

/// Names one byte channel of the pipeline.
#[derive(PartialEq, Eq, Structural, Clone, Copy, Debug)]
pub struct ChannelId(pub usize);

/// What a rule does with a unit that it matches.
#[derive(PartialEq, Eq, Structural, Clone, Copy, Debug)]
pub enum ActionType {
    /// Discard the unit.
    Drop,
    /// Hand the unit to the service's own processing.
    Process,
    /// Take the payload out of the unit and forward it on a channel.
    ForwardTo(ChannelId),
}

impl ActionType {
    /// The name of the disposition, as it is logged.
    pub open spec fn name_text(self) -> Seq<char> {
        match self {
            ActionType::Drop => "DROP"@,
            ActionType::Process => "PROCESS"@,
            ActionType::ForwardTo(_) => "FORWARD"@,
        }
    }

    /// The name of the disposition, as it is logged.
    pub fn name(&self) -> (s: &'static str)
        ensures
            s@ == self.name_text(),
    {
        match self {
            ActionType::Drop => "DROP",
            ActionType::Process => "PROCESS",
            ActionType::ForwardTo(_) => "FORWARD",
        }
    }
}

/// What a rule does with a unit that it matches, and whether it logs that.
#[derive(PartialEq, Eq, Structural, Clone, Copy, Debug)]
pub enum FilterAction {
    /// Log the unit, then discard it.
    LogAndBlock,
    /// Discard the unit.
    Block,
    /// Log the unit, then forward its payload on the channel.
    LogAndUnwrap(ChannelId),
    /// Forward the payload of the unit on the channel.
    Unwrap(ChannelId),
    /// Log the unit, then hand it to the service's own processing.
    LogAndProcess,
    /// Hand the unit to the service's own processing.
    Process,
}

impl FilterAction {
    /// The same action, logged.
    pub open spec fn logged(self) -> FilterAction {
        match self {
            FilterAction::Block => FilterAction::LogAndBlock,
            FilterAction::Process => FilterAction::LogAndProcess,
            FilterAction::Unwrap(channel) => FilterAction::LogAndUnwrap(channel),
            other => other,
        }
    }

    /// Whether the action is logged.
    pub open spec fn is_logged(self) -> bool {
        self is LogAndBlock || self is LogAndUnwrap || self is LogAndProcess
    }

    /// What the action does with the unit.
    pub open spec fn disposition(self) -> ActionType {
        match self {
            FilterAction::LogAndBlock | FilterAction::Block => ActionType::Drop,
            FilterAction::LogAndUnwrap(channel) | FilterAction::Unwrap(channel) => {
                ActionType::ForwardTo(channel)
            },
            FilterAction::LogAndProcess | FilterAction::Process => ActionType::Process,
        }
    }

    /// The action that hands the payload of a unit to `layer`: it forwards
    /// on the channel that `layer` receives from.
    pub fn unwrap<L: NetService>(layer: &L) -> (action: FilterAction)
        ensures
            action == FilterAction::Unwrap(layer.send_up()),
    {
        FilterAction::Unwrap(layer.get_send_up())
    }

    /// The same action, logged.
    pub fn log(self) -> (action: FilterAction)
        ensures
            action == self.logged(),
            action.is_logged(),
            action.disposition() == self.disposition(),
    {
        match self {
            FilterAction::Block => FilterAction::LogAndBlock,
            FilterAction::Process => FilterAction::LogAndProcess,
            FilterAction::Unwrap(v) => FilterAction::LogAndUnwrap(v),
            a => a,
        }
    }

    /// Whether the action is logged.
    pub fn logs(&self) -> (log: bool)
        ensures
            log == self.is_logged(),
    {
        match self {
            FilterAction::LogAndBlock => true,
            FilterAction::LogAndUnwrap(_) => true,
            FilterAction::LogAndProcess => true,
            _ => false,
        }
    }

    /// What the action does with the unit.
    pub fn action_type(&self) -> (action: ActionType)
        ensures
            action == self.disposition(),
    {
        match self {
            FilterAction::LogAndBlock | FilterAction::Block => ActionType::Drop,
            FilterAction::LogAndUnwrap(channel) | FilterAction::Unwrap(channel) => {
                ActionType::ForwardTo(*channel)
            },
            FilterAction::LogAndProcess | FilterAction::Process => ActionType::Process,
        }
    }
}

/// A predicate over a service and a unit that it received.
pub trait PduFilter<S, P: View> {
    /// Whether the filter lets the unit through to its rule.
    spec fn accepts(&self, service: &S, pdu: P::V) -> bool;

    /// Whether the filter lets the unit through to its rule.
    fn test(&self, service: &S, pdu: &P) -> (accepted: bool)
        ensures
            accepted == self.accepts(service, pdu@),
    ;
}

/// A rule: what to do, with which units, and whether to log it.
pub struct Action<F> {
    pub action: ActionType,
    pub filter: Option<F>,
    pub log: bool,
}

impl<F> Action<F> {
    /// The rule that `add_action` makes of a filter and an action.
    pub open spec fn of(filter: Option<F>, action: FilterAction) -> Action<F> {
        Action { action: action.disposition(), filter, log: action.is_logged() }
    }

    /// Whether the rule applies to a unit: its filter accepts the unit, or
    /// it has no filter.
    pub open spec fn applies<S, P: View>(self, service: &S, pdu: P::V) -> bool where
        F: PduFilter<S, P>,
    {
        match self.filter {
            Some(filter) => filter.accepts(service, pdu),
            None => true,
        }
    }

    /// A rule.
    pub fn new(action: ActionType, filter: Option<F>, log: bool) -> (rule: Action<F>)
        ensures
            rule == (Action { action, filter, log }),
    {
        Action { action, filter, log }
    }

    /// Whether the rule applies to a unit: its filter accepts the unit, or
    /// it has no filter.
    pub fn should_process<S, P: View>(&self, service: &S, pdu: &P) -> (applies: bool) where
        F: PduFilter<S, P>,
        ensures
            applies == self.applies::<S, P>(service, pdu@),
    {
        match &self.filter {
            Some(filter) => filter.test(service, pdu),
            None => true,
        }
    }
}

/// The index of the first of the first `upto` rules that applies to a unit.
pub open spec fn first_match<F, S, P: View>(
    rules: Seq<Action<F>>,
    service: &S,
    pdu: P::V,
    upto: int,
) -> Option<int> where F: PduFilter<S, P>
    decreases upto,
{
    if upto <= 0 {
        None
    } else {
        match first_match::<F, S, P>(rules, service, pdu, upto - 1) {
            Some(index) => Some(index),
            None => if rules[upto - 1].applies::<S, P>(service, pdu) {
                Some(upto - 1)
            } else {
                None
            },
        }
    }
}

/// The first match is the lowest index of a rule that applies.
pub proof fn lemma_first_match<F, S, P: View>(
    rules: Seq<Action<F>>,
    service: &S,
    pdu: P::V,
    upto: int,
) where F: PduFilter<S, P>
    requires
        0 <= upto <= rules.len(),
    ensures
        match first_match::<F, S, P>(rules, service, pdu, upto) {
            Some(index) => 0 <= index < upto && rules[index].applies::<S, P>(service, pdu)
                && forall|j: int| 0 <= j < index ==> !(#[trigger] rules[j]).applies::<S, P>(
                    service,
                    pdu,
                ),
            None => forall|j: int| 0 <= j < upto ==> !(#[trigger] rules[j]).applies::<S, P>(
                service,
                pdu,
            ),
        },
    decreases upto,
{
    if upto > 0 {
        lemma_first_match::<F, S, P>(rules, service, pdu, upto - 1);
    }
}

/// What is to be done with a unit.
#[derive(Debug)]
pub enum Outcome {
    /// Nothing: the unit is discarded.
    Dropped,
    /// The payload of the unit goes up, on the channel of the rule.
    Forward { to: ChannelId, bytes: Vec<u8> },
    /// The service processed the unit, and its answer goes down.
    Send { to: ChannelId, bytes: Vec<u8> },
    /// The service processed the unit, and has nothing to send.
    Processed,
}

/// What is to be done with a unit, as plain values.
pub enum OutcomeView {
    /// Nothing: the unit is discarded.
    Dropped,
    /// The payload of the unit goes up, on the channel of the rule.
    Forward { to: ChannelId, bytes: Seq<u8> },
    /// The service processed the unit, and its answer goes down.
    Send { to: ChannelId, bytes: Seq<u8> },
    /// The service processed the unit, and has nothing to send.
    Processed,
}

impl View for Outcome {
    type V = OutcomeView;

    open spec fn view(&self) -> OutcomeView {
        match self {
            Outcome::Dropped => OutcomeView::Dropped,
            Outcome::Forward { to, bytes } => OutcomeView::Forward { to: *to, bytes: bytes@ },
            Outcome::Send { to, bytes } => OutcomeView::Send { to: *to, bytes: bytes@ },
            Outcome::Processed => OutcomeView::Processed,
        }
    }
}

/// One step of a service: the line to log, if the rule that matched logs,
/// and what is to be done with the unit.
#[derive(Debug)]
pub struct Step {
    pub log: Option<String>,
    pub outcome: Outcome,
}

/// One step of a service, as plain values.
pub struct StepView {
    pub log: Option<Seq<char>>,
    pub outcome: OutcomeView,
}

impl View for Step {
    type V = StepView;

    open spec fn view(&self) -> StepView {
        StepView {
            log: match self.log {
                Some(line) => Some(line@),
                None => None,
            },
            outcome: self.outcome@,
        }
    }
}

/// What the first of `rules` that applies to a unit says is to be done
/// with it, where the service's own processing of the unit would send
/// `answer` down on `send_down`. Without a rule that applies, the unit is
/// dropped. A rule that logs gives the line to log: the name of its
/// disposition and the unit.
pub open spec fn decide<F, S, P: Pdu + Wrapper>(
    rules: Seq<Action<F>>,
    service: &S,
    pdu: P::V,
    answer: Option<Seq<u8>>,
    send_down: ChannelId,
) -> StepView where F: PduFilter<S, P> {
    match first_match::<F, S, P>(rules, service, pdu, rules.len() as int) {
        None => StepView { log: None, outcome: OutcomeView::Dropped },
        Some(index) => {
            let rule = rules[index];
            StepView {
                log: if rule.log {
                    Some(P::log_line(pdu, rule.action.name_text()))
                } else {
                    None
                },
                outcome: match rule.action {
                    ActionType::Drop => OutcomeView::Dropped,
                    ActionType::ForwardTo(to) => OutcomeView::Forward {
                        to,
                        bytes: P::payload(pdu),
                    },
                    ActionType::Process => match answer {
                        Some(bytes) => OutcomeView::Send { to: send_down, bytes },
                        None => OutcomeView::Processed,
                    },
                },
            }
        },
    }
}

/// A service of one layer: an ordered list of rules, the channel it
/// receives on from the layer below, the channel it receives on from the
/// layer above, and the channel it sends down on.
pub trait NetService: Sized {
    /// The units of this layer.
    type Pdu: Pdu + Wrapper;

    /// The filters of this service's rules.
    type Filter: PduFilter<Self, Self::Pdu>;

    /// The rules, in the order in which they are tried.
    spec fn rules(&self) -> Seq<Action<Self::Filter>>;

    /// The channel that the service receives on from the layer below: who
    /// sends up to this service sends on it.
    spec fn send_up(&self) -> ChannelId;

    /// The channel that the service receives on from the layer above.
    spec fn send_from_above(&self) -> ChannelId;

    /// The channel that the service sends down on.
    spec fn send_down(&self) -> ChannelId;

    /// The bytes that the service's own processing of a unit sends down,
    /// if any.
    spec fn answer(&self, pdu: <Self::Pdu as View>::V) -> Option<Seq<u8>>;

    /// The rules, in the order in which they are tried.
    fn actions(&self) -> (rules: &[Action<Self::Filter>])
        ensures
            rules@ == self.rules(),
    ;

    /// Appends a rule.
    fn add_action(&mut self, filter: Option<Self::Filter>, action: FilterAction)
        ensures
            final(self).rules() == old(self).rules().push(Action::of(filter, action)),
            final(self).send_up() == old(self).send_up(),
            final(self).send_from_above() == old(self).send_from_above(),
            final(self).send_down() == old(self).send_down(),
    ;

    /// The channel that the service receives on from the layer below.
    fn get_send_up(&self) -> (channel: ChannelId)
        ensures
            channel == self.send_up(),
    ;

    /// Sets the channel that the service sends down on.
    fn set_send_down(&mut self, sender: ChannelId)
        ensures
            final(self).send_down() == sender,
            final(self).rules() == old(self).rules(),
            final(self).send_up() == old(self).send_up(),
            final(self).send_from_above() == old(self).send_from_above(),
    ;

    /// The channel that the service receives on from the layer above.
    fn get_send_from_above(&self) -> (channel: ChannelId)
        ensures
            channel == self.send_from_above(),
    ;

    /// The channel that the service sends down on.
    fn get_send_down(&self) -> (channel: ChannelId)
        ensures
            channel == self.send_down(),
    ;

    /// The service's own processing of a unit: the bytes to send down, if
    /// any. It leaves the rules and the channels as they are.
    fn process_pdu(&mut self, pdu: Self::Pdu) -> (out: Option<Vec<u8>>)
        ensures
            match out {
                Some(bytes) => old(self).answer(pdu@) == Some(bytes@),
                None => old(self).answer(pdu@) is None,
            },
            final(self).rules() == old(self).rules(),
            final(self).send_up() == old(self).send_up(),
            final(self).send_from_above() == old(self).send_from_above(),
            final(self).send_down() == old(self).send_down(),
    ;

    /// Appends the rule that hands the payload of the units that `filter`
    /// accepts to the service that receives on `send_up`.
    fn add_encapsulated_service(&mut self, send_up: ChannelId, filter: Option<Self::Filter>)
        ensures
            final(self).rules() == old(self).rules().push(
                Action::of(filter, FilterAction::Unwrap(send_up)),
            ),
            final(self).send_up() == old(self).send_up(),
            final(self).send_from_above() == old(self).send_from_above(),
            final(self).send_down() == old(self).send_down(),
    {
        self.add_action(filter, FilterAction::Unwrap(send_up))
    }
}

/// What a service is to do with a unit: what the first rule that applies
/// to it says; without such a rule, the unit is dropped.
pub open spec fn decision<N: NetService>(service: &N, pdu: <N::Pdu as View>::V) -> StepView {
    decide::<N::Filter, N, N::Pdu>(
        service.rules(),
        service,
        pdu,
        service.answer(pdu),
        service.send_down(),
    )
}

/// One step: decodes the bytes that came from below and says what the
/// first rule that applies makes of the unit. Bytes that do not decode
/// give the error and leave the service as it was.
#[verifier::rlimit(40)]
pub fn process<N: NetService>(service: &mut N, raw: &[u8]) -> (r: Result<
    Step,
    DeserialiseError,
>)
    ensures
        match r {
            Ok(step) => <N::Pdu as Serialise>::decoding(raw@) matches Ok(pdu)
                && step@ == decision(old(service), pdu),
            Err(e) => <N::Pdu as Serialise>::decoding(raw@) == Err::<
                <N::Pdu as View>::V,
                Fault,
            >(e@) && *final(service) == *old(service),
        },
        final(service).rules() == old(service).rules(),
        final(service).send_up() == old(service).send_up(),
        final(service).send_from_above() == old(service).send_from_above(),
        final(service).send_down() == old(service).send_down(),
{
    let pdu = match <N::Pdu as Serialise>::deserialise(raw) {
        Ok(pdu) => pdu,
        Err(e) => return Err(e),
    };
    let mut found: Option<(ActionType, bool)> = None;
    let rules = service.actions();
    let mut index: usize = 0;
    while index < rules.len() && found.is_none()
        invariant
            index <= rules@.len(),
            rules@ == service.rules(),
            match found {
                Some((action, log)) => index > 0 && first_match::<
                    N::Filter,
                    N,
                    N::Pdu,
                >(rules@, service, pdu@, index as int) == Some(index - 1) && action == rules@[index
                    - 1].action && log == rules@[index - 1].log,
                None => first_match::<N::Filter, N, N::Pdu>(
                    rules@,
                    service,
                    pdu@,
                    index as int,
                ) is None,
            },
        decreases rules@.len() - index + if found is None { 1int } else { 0int },
    {
        if rules[index].should_process(&*service, &pdu) {
            found = Some((rules[index].action, rules[index].log));
        }
        index += 1;
    }
    proof {
        lemma_first_match_stays::<N::Filter, N, N::Pdu>(
            rules@,
            service,
            pdu@,
            index as int,
            rules@.len() as int,
        );
    }
    match found {
        None => Ok(Step { log: None, outcome: Outcome::Dropped }),
        Some((action, log)) => {
            let line = if log {
                Some(pdu.log(action.name()))
            } else {
                None
            };
            let outcome = match action {
                ActionType::Drop => Outcome::Dropped,
                ActionType::ForwardTo(to) => Outcome::Forward { to, bytes: pdu.unwrap_data() },
                ActionType::Process => {
                    let to = service.get_send_down();
                    match service.process_pdu(pdu) {
                        Some(bytes) => Outcome::Send { to, bytes },
                        None => Outcome::Processed,
                    }
                },
            };
            Ok(Step { log: line, outcome })
        },
    }
}

/// Once a rule has matched, looking at more rules finds the same one.
pub proof fn lemma_first_match_stays<F, S, P: View>(
    rules: Seq<Action<F>>,
    service: &S,
    pdu: P::V,
    upto: int,
    later: int,
) where F: PduFilter<S, P>
    requires
        0 <= upto <= later,
        first_match::<F, S, P>(rules, service, pdu, upto) is Some || upto == later,
    ensures
        first_match::<F, S, P>(rules, service, pdu, later) == first_match::<F, S, P>(
            rules,
            service,
            pdu,
            upto,
        ),
    decreases later - upto,
{
    if upto < later {
        lemma_first_match_stays::<F, S, P>(rules, service, pdu, upto, later - 1);
    }
}

/// A service that another is stacked on.
pub trait Stack<S: NetService>: NetService {
    /// Puts `service` on top of this one: `service` sends down on the
    /// channel that this one receives on from above, and a new rule of this
    /// one hands the payload of the units that `filter` accepts to
    /// `service`.
    fn stack(&mut self, service: &mut S, filter: Option<Self::Filter>)
        ensures
            final(service).send_down() == old(self).send_from_above(),
            final(service).rules() == old(service).rules(),
            final(service).send_up() == old(service).send_up(),
            final(service).send_from_above() == old(service).send_from_above(),
            final(self).rules() == old(self).rules().push(
                Action::of(filter, FilterAction::Unwrap(old(service).send_up())),
            ),
            final(self).send_up() == old(self).send_up(),
            final(self).send_from_above() == old(self).send_from_above(),
            final(self).send_down() == old(self).send_down(),
    {
        service.set_send_down(self.get_send_from_above());
        self.add_encapsulated_service(service.get_send_up(), filter);
    }
}

impl<L: NetService, S: NetService> Stack<S> for L {
}

} // verus!
