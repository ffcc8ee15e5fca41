//! The dispatch engine: a registry of service descriptors, a two-state
//! lifecycle (awaiting readiness, then ready), and the matching and
//! invocation loop run for every inbound message.

use vstd::prelude::*;

use crate::launch_arg::LaunchArg;
use crate::launch_type::LaunchTiming;
use crate::service::ClientEvent;
use crate::service::Controller;
use crate::service::Service;
use crate::service::ServiceFactory;
use crate::service_info::ServiceInfo;
use crate::structs::TextMessage;
use crate::text::chars_of;
use crate::text::chars_eq_str;
use crate::text::first_token;
use crate::text::parsed_command;
use crate::text::starts_with_at;
use crate::text::subvec;
use crate::text::token_end;
use crate::text::trim_bounds;
use crate::text::trimmed;

verus! {

/// Whether one launch condition fires on a message: a command call fires
/// exactly when the command parsed from the trimmed content (under the
/// given prefix) is the condition's name; a content match fires exactly
/// when the raw, untrimmed content equals the condition's target.
pub open spec fn timing_fires<H>(t: LaunchTiming<H>, prefix: Seq<char>, raw: Seq<char>) -> bool {
    match t {
        LaunchTiming::OnCommandCall { command_name, .. } => parsed_command(prefix, trimmed(raw))
            == Some(command_name@),
        LaunchTiming::OnMessageMatch { target_content, .. } => raw == target_content@,
    }
}

/// Condition `j` of service `i` exists and fires on the message.
pub open spec fn fires_at<H>(
    services: Seq<ServiceInfo<H>>,
    prefix: Seq<char>,
    raw: Seq<char>,
    i: int,
    j: int,
) -> bool {
    &&& 0 <= i < services.len()
    &&& 0 <= j < services[i].initial_timings@.len()
    &&& timing_fires(services[i].initial_timings@[j], prefix, raw)
}

/// One handler invocation the engine performed: which service and which
/// of its conditions fired, the service's name (for reporting), and what
/// the handler returned.
#[derive(Debug)]
pub struct LaunchRecord {
    pub service_index: usize,
    pub timing_index: usize,
    pub service_name: String,
    pub result: Result<(), String>,
}

/// Strict ordering of invocations: by service, then by condition.
pub open spec fn record_lt(a: LaunchRecord, b: LaunchRecord) -> bool {
    lex_lt(a.service_index as int, a.timing_index as int, b.service_index as int,
        b.timing_index as int)
}

/// `(a, b)` is lexicographically before `(i, j)`.
pub open spec fn lex_lt(a: int, b: int, i: int, j: int) -> bool {
    a < i || (a == i && b < j)
}

/// The record points at an existing, fired condition and carries the
/// owning service's name.
pub open spec fn record_valid_at<H>(
    r: LaunchRecord,
    services: Seq<ServiceInfo<H>>,
    prefix: Seq<char>,
    raw: Seq<char>,
) -> bool {
    &&& fires_at(services, prefix, raw, r.service_index as int, r.timing_index as int)
    &&& r.service_name@ == services[r.service_index as int].name@
}

/// Some record invokes condition `j` of service `i`.
pub open spec fn has_record(records: Seq<LaunchRecord>, i: int, j: int) -> bool {
    exists|k: int|
        0 <= k < records.len() && (#[trigger] records[k]).service_index == i
            && records[k].timing_index == j
}

/// The dispatch report for one message: every record invokes a fired
/// condition (soundness), every fired condition is invoked (completeness),
/// and the records run in registration order, service by service,
/// condition by condition — so each fired condition is invoked exactly
/// once.
pub open spec fn records_valid<H>(
    records: Seq<LaunchRecord>,
    services: Seq<ServiceInfo<H>>,
    prefix: Seq<char>,
    raw: Seq<char>,
) -> bool {
    &&& forall|k: int|
        0 <= k < records.len() ==> record_valid_at(#[trigger] records[k], services, prefix, raw)
    &&& forall|i: int, j: int|
        #[trigger] fires_at(services, prefix, raw, i, j) ==> has_record(records, i, j)
    &&& forall|k1: int, k2: int|
        0 <= k1 < k2 < records.len() ==> record_lt(#[trigger] records[k1], #[trigger] records[k2])
}

/// The launch argument built for a fired condition: tagged like the
/// condition, carrying the condition's own payload and the message;
/// descriptor resolution is left to the handler, so no resolved values
/// are attached.
pub open spec fn launch_arg_for<H>(t: LaunchTiming<H>, m: TextMessage) -> LaunchArg {
    match t {
        LaunchTiming::OnMessageMatch { target_content, .. } => LaunchArg::OnMessageMatch {
            matches_to: target_content,
            message: m,
            args: None,
        },
        LaunchTiming::OnCommandCall { command_name, .. } => LaunchArg::OnCommandCall {
            command_name,
            message: m,
            args: None,
        },
    }
}

/// What the engine did with one event.
#[derive(Debug)]
pub enum EventOutcome {
    /// The connector announced readiness; the control surface is stored.
    ReadyAccepted,
    /// A message arrived before readiness: a contract violation by the
    /// connector, reported instead of matched.
    ContractViolation,
    /// The message was blank after trimming and was not matched.
    Discarded,
    /// The message was matched; one record per fired condition, in order.
    Dispatched(Vec<LaunchRecord>),
}

/// The control surface the engine holds after the given event.
pub open spec fn context_step<C>(ctxt: Option<C>, ev: ClientEvent<C>) -> Option<C> {
    match ev {
        ClientEvent::OnReady(c) => Some(c),
        ClientEvent::OnMessage(_) => ctxt,
    }
}

/// The control surface the engine holds after the given events, in order.
pub open spec fn context_after<C>(ctxt: Option<C>, events: Seq<ClientEvent<C>>) -> Option<C>
    decreases events.len(),
{
    if events.len() == 0 {
        ctxt
    } else {
        context_step(context_after(ctxt, events.drop_last()), events.last())
    }
}

/// The outcome owed for one event, given the control surface held when it
/// arrived.
pub open spec fn outcome_valid<C, H>(
    out: EventOutcome,
    ev: ClientEvent<C>,
    ctxt: Option<C>,
    services: Seq<ServiceInfo<H>>,
    prefix: Seq<char>,
) -> bool {
    match ev {
        ClientEvent::OnReady(_) => out == EventOutcome::ReadyAccepted,
        ClientEvent::OnMessage(m) => if ctxt is None {
            out == EventOutcome::ContractViolation
        } else if trimmed(m.content@).len() == 0 {
            out == EventOutcome::Discarded
        } else {
            out matches EventOutcome::Dispatched(records) && records_valid(
                records@,
                services,
                prefix,
                m.content@,
            )
        },
    }
}

/// The dispatch engine. `C` is the control surface the connector
/// provides; `H` is the handler-construction value bound to each launch
/// condition.
pub struct Bot<C, H> {
    pub prefix: String,
    pub services: Vec<ServiceInfo<H>>,
    pub context: Option<C>,
}

impl<C: Controller, H: ServiceFactory<C>> Bot<C, H> {
    /// An engine with the given command prefix, an empty registry, and no
    /// control surface yet.
    pub fn new(prefix: &str) -> (r: Self)
        ensures
            r.prefix@ == prefix@,
            r.services@.len() == 0,
            r.context is None,
    {
        Bot { prefix: prefix.to_owned(), services: Vec::new(), context: None }
    }

    /// Appends a built service descriptor to the live registry. Meant to
    /// be called before event consumption starts.
    pub fn add_service(&mut self, info: ServiceInfo<H>)
        ensures
            final(self).prefix == old(self).prefix,
            final(self).context == old(self).context,
            final(self).services@ == old(self).services@.push(info),
    {
        self.services.push(info);
    }

    /// Consumes one event: `OnReady` stores the control surface; a
    /// message before readiness is a reported contract violation; a blank
    /// message is discarded; any other message is matched against every
    /// condition of every registered service, each fired condition's
    /// handler is built and invoked exactly once, in registration order,
    /// and a failure of one handler never stops the others.
    pub fn handle_event(&mut self, event: ClientEvent<C>) -> (out: EventOutcome)
        ensures
            final(self).prefix == old(self).prefix,
            final(self).services == old(self).services,
            final(self).context == context_step(old(self).context, event),
            outcome_valid(out, event, old(self).context, old(self).services@, old(self).prefix@),
    {
        match event {
            ClientEvent::OnReady(c) => {
                self.context = Some(c);
                EventOutcome::ReadyAccepted
            },
            ClientEvent::OnMessage(m) => {
                match &self.context {
                    None => EventOutcome::ContractViolation,
                    Some(ctx) => {
                        match Self::on_message(&self.prefix, &self.services, &m, ctx) {
                            None => EventOutcome::Discarded,
                            Some(records) => EventOutcome::Dispatched(records),
                        }
                    },
                }
            },
        }
    }

    /// Matches one message against the registry and invokes every fired
    /// condition's handler. Returns `None` exactly when the trimmed
    /// content is blank; otherwise the records report, in order, each
    /// invocation and what its handler returned.
    fn on_message(
        prefix: &String,
        services: &Vec<ServiceInfo<H>>,
        m: &TextMessage,
        controller: &C,
    ) -> (r: Option<Vec<LaunchRecord>>)
        ensures
            r is Some <==> trimmed(m.content@).len() > 0,
            r matches Some(records) ==> records_valid(records@, services@, prefix@, m.content@),
    {
        let ghost raw = m.content@;
        let ghost pfx_seq = prefix@;
        let chars = chars_of(m.content.as_str());
        let (lo, hi) = trim_bounds(&chars);
        if lo == hi {
            proof {
                assert(trimmed(raw).len() == 0);
            }
            return None;
        }
        let pfxv = chars_of(prefix.as_str());
        let ghost t_spec = trimmed(raw);
        let is_cmd = starts_with_at(&chars, lo, hi, &pfxv);
        let cmd: Option<Vec<char>> = if is_cmd {
            let from = lo + pfxv.len();
            let e = token_end(&chars, from, hi);
            let c = subvec(&chars, from, e);
            proof {
                let u = chars@.subrange(from as int, hi as int);
                assert(u =~= t_spec.skip(pfx_seq.len() as int));
                crate::text::lemma_token_len_bounds(u);
                assert(first_token(u) =~= chars@.subrange(from as int, e as int));
                assert(parsed_command(pfx_seq, t_spec) == Some(c@));
            }
            Some(c)
        } else {
            proof {
                assert(parsed_command(pfx_seq, t_spec) is None);
            }
            None
        };
        let mut records: Vec<LaunchRecord> = Vec::new();
        let nsvc = services.len();
        let mut i: usize = 0;
        while i < nsvc
            invariant
                i <= nsvc,
                nsvc == services@.len(),
                pfx_seq == prefix@,
                raw == m.content@,
                t_spec == trimmed(raw),
                (cmd is Some) <==> (parsed_command(pfx_seq, t_spec) is Some),
                cmd matches Some(c) ==> parsed_command(pfx_seq, t_spec) == Some(c@),
                forall|k: int|
                    0 <= k < records@.len() ==> record_valid_at(
                        #[trigger] records@[k],
                        services@,
                        pfx_seq,
                        raw,
                    ),
                forall|k: int|
                    0 <= k < records@.len() ==> lex_lt(
                        (#[trigger] records@[k]).service_index as int,
                        records@[k].timing_index as int,
                        i as int,
                        0,
                    ),
                forall|a: int, b: int|
                    #[trigger] fires_at(services@, pfx_seq, raw, a, b) && lex_lt(
                        a,
                        b,
                        i as int,
                        0,
                    ) ==> has_record(records@, a, b),
                forall|k1: int, k2: int|
                    0 <= k1 < k2 < records@.len() ==> record_lt(
                        #[trigger] records@[k1],
                        #[trigger] records@[k2],
                    ),
            decreases nsvc - i,
        {
            let svc = &services[i];
            let ntim = svc.initial_timings.len();
            let mut j: usize = 0;
            while j < ntim
                invariant
                    i < nsvc,
                    j <= ntim,
                    nsvc == services@.len(),
                    ntim == services@[i as int].initial_timings@.len(),
                    svc == &services@[i as int],
                    pfx_seq == prefix@,
                    raw == m.content@,
                    t_spec == trimmed(raw),
                    (cmd is Some) <==> (parsed_command(pfx_seq, t_spec) is Some),
                    cmd matches Some(c) ==> parsed_command(pfx_seq, t_spec) == Some(c@),
                    forall|k: int|
                        0 <= k < records@.len() ==> record_valid_at(
                            #[trigger] records@[k],
                            services@,
                            pfx_seq,
                            raw,
                        ),
                    forall|k: int|
                        0 <= k < records@.len() ==> lex_lt(
                            (#[trigger] records@[k]).service_index as int,
                            records@[k].timing_index as int,
                            i as int,
                            j as int,
                        ),
                    forall|a: int, b: int|
                        #[trigger] fires_at(services@, pfx_seq, raw, a, b) && lex_lt(
                            a,
                            b,
                            i as int,
                            j as int,
                        ) ==> has_record(records@, a, b),
                    forall|k1: int, k2: int|
                        0 <= k1 < k2 < records@.len() ==> record_lt(
                            #[trigger] records@[k1],
                            #[trigger] records@[k2],
                        ),
                decreases ntim - j,
            {
                let timing = &svc.initial_timings[j];
                let fires: bool = match timing {
                    LaunchTiming::OnMessageMatch { target_content, .. } => m.content.eq(
                        target_content,
                    ),
                    LaunchTiming::OnCommandCall { command_name, .. } => match &cmd {
                        Some(c) => chars_eq_str(c, command_name.as_str()),
                        None => false,
                    },
                };
                proof {
                    assert(fires == timing_fires(
                        services@[i as int].initial_timings@[j as int],
                        pfx_seq,
                        raw,
                    ));
                }
                if fires {
                    let arg = make_launch_arg(timing, m);
                    let result = match timing {
                        LaunchTiming::OnMessageMatch { generator, .. } => generator.make(
                            arg,
                        ).launch(controller),
                        LaunchTiming::OnCommandCall { generator, .. } => generator.make(
                            arg,
                        ).launch(controller),
                    };
                    let ghost rs0 = records@;
                    let record = LaunchRecord {
                        service_index: i,
                        timing_index: j,
                        service_name: svc.name.clone(),
                        result,
                    };
                    records.push(record);
                    proof {
                        assert(records@ == rs0.push(record));
                        assert forall|a: int, b: int|
                            #[trigger] fires_at(services@, pfx_seq, raw, a, b) && lex_lt(
                                a,
                                b,
                                i as int,
                                j + 1,
                            ) implies has_record(records@, a, b) by {
                            if lex_lt(a, b, i as int, j as int) {
                                let k = choose|k: int|
                                    0 <= k < rs0.len() && (#[trigger] rs0[k]).service_index == a
                                        && rs0[k].timing_index == b;
                                assert(records@[k].service_index == a
                                    && records@[k].timing_index == b);
                            } else {
                                assert(a == i as int && b == j as int);
                                assert(records@[rs0.len() as int].service_index == a
                                    && records@[rs0.len() as int].timing_index == b);
                            }
                        }
                    }
                } else {
                    proof {
                        assert(!fires_at(services@, pfx_seq, raw, i as int, j as int));
                        assert forall|a: int, b: int|
                            #[trigger] fires_at(services@, pfx_seq, raw, a, b) && lex_lt(
                                a,
                                b,
                                i as int,
                                j + 1,
                            ) implies has_record(records@, a, b) by {
                            assert(lex_lt(a, b, i as int, j as int));
                        }
                    }
                }
                j += 1;
            }
            i += 1;
        }
        proof {
            assert forall|a: int, b: int|
                #[trigger] fires_at(services@, pfx_seq, raw, a, b) implies has_record(
                records@,
                a,
                b,
            ) by {
                assert(lex_lt(a, b, nsvc as int, 0));
            }
            assert(t_spec.len() > 0);
        }
        Some(records)
    }

    /// Consumes a batch of events strictly in order: each event sees the
    /// control surface left by those before it, and its outcome is the
    /// one `handle_event` owes for that state.
    pub fn process_events(&mut self, events: Vec<ClientEvent<C>>) -> (outs: Vec<EventOutcome>)
        ensures
            final(self).prefix == old(self).prefix,
            final(self).services == old(self).services,
            final(self).context == context_after(old(self).context, events@),
            outs@.len() == events@.len(),
            forall|k: int|
                0 <= k < events@.len() ==> outcome_valid(
                    #[trigger] outs@[k],
                    events@[k],
                    context_after(old(self).context, events@.take(k)),
                    old(self).services@,
                    old(self).prefix@,
                ),
    {
        let ghost all = events@;
        let ghost init_ctxt = self.context;
        let ghost prefix0 = self.prefix;
        let ghost services0 = self.services;
        let mut evs = events;
        let mut outs: Vec<EventOutcome> = Vec::new();
        proof {
            assert(all.take(0) =~= Seq::<ClientEvent<C>>::empty());
        }
        while evs.len() > 0
            invariant
                outs@.len() + evs@.len() == all.len(),
                evs@ == all.skip(outs@.len() as int),
                self.prefix == prefix0,
                self.services == services0,
                self.context == context_after(init_ctxt, all.take(outs@.len() as int)),
                forall|k: int|
                    0 <= k < outs@.len() ==> outcome_valid(
                        #[trigger] outs@[k],
                        all[k],
                        context_after(init_ctxt, all.take(k)),
                        services0@,
                        prefix0@,
                    ),
            decreases evs@.len(),
        {
            let ghost done = outs@.len() as int;
            let ev = evs.remove(0);
            proof {
                assert(ev == all[done]);
                assert(evs@ =~= all.skip(done + 1));
            }
            let out = self.handle_event(ev);
            outs.push(out);
            proof {
                lemma_context_after_take_step(init_ctxt, all, done);
            }
        }
        proof {
            assert(all.take(all.len() as int) =~= all);
        }
        outs
    }
}

/// Builds the launch argument for a fired condition, cloning the
/// condition's payload and the message.
fn make_launch_arg<H>(t: &LaunchTiming<H>, m: &TextMessage) -> (r: LaunchArg)
    ensures
        r == launch_arg_for(*t, *m),
{
    match t {
        LaunchTiming::OnMessageMatch { target_content, .. } => LaunchArg::OnMessageMatch {
            matches_to: target_content.clone(),
            message: m.clone(),
            args: None,
        },
        LaunchTiming::OnCommandCall { command_name, .. } => LaunchArg::OnCommandCall {
            command_name: command_name.clone(),
            message: m.clone(),
            args: None,
        },
    }
}

/// The invocations one service contributes from its condition `j` on:
/// one (service, condition index) pair per fired condition, in condition
/// order.
pub open spec fn fired_in_service_from<H>(
    svc: ServiceInfo<H>,
    prefix: Seq<char>,
    raw: Seq<char>,
    j: int,
) -> Seq<(ServiceInfo<H>, int)>
    decreases svc.initial_timings@.len() - j,
{
    if j < 0 || j >= svc.initial_timings@.len() {
        Seq::empty()
    } else if timing_fires(svc.initial_timings@[j], prefix, raw) {
        seq![(svc, j)] + fired_in_service_from(svc, prefix, raw, j + 1)
    } else {
        fired_in_service_from(svc, prefix, raw, j + 1)
    }
}

/// The invocations one service contributes to a dispatch: one
/// (service, condition index) pair per fired condition, in condition
/// order.
pub open spec fn fired_in_service<H>(
    svc: ServiceInfo<H>,
    prefix: Seq<char>,
    raw: Seq<char>,
) -> Seq<(ServiceInfo<H>, int)> {
    fired_in_service_from(svc, prefix, raw, 0)
}

/// Every invocation a registry yields for a message, in registration
/// order, service by service.
pub open spec fn fired_invocations<H>(
    services: Seq<ServiceInfo<H>>,
    prefix: Seq<char>,
    raw: Seq<char>,
) -> Seq<(ServiceInfo<H>, int)>
    decreases services.len(),
{
    if services.len() == 0 {
        Seq::empty()
    } else {
        fired_in_service(services[0], prefix, raw) + fired_invocations(
            services.drop_first(),
            prefix,
            raw,
        )
    }
}

/// Taking one service out of the registry takes exactly its own
/// contribution out of the invocation multiset.
proof fn lemma_fired_invocations_remove<H>(
    services: Seq<ServiceInfo<H>>,
    prefix: Seq<char>,
    raw: Seq<char>,
    i: int,
)
    requires
        0 <= i < services.len(),
    ensures
        fired_invocations(services, prefix, raw).to_multiset() =~= fired_invocations(
            services.remove(i),
            prefix,
            raw,
        ).to_multiset().add(fired_in_service(services[i], prefix, raw).to_multiset()),
    decreases i,
{
    broadcast use vstd::seq_lib::lemma_multiset_commutative;

    let d = services.drop_first();
    if i == 0 {
        assert(services.remove(0) =~= d);
    } else {
        lemma_fired_invocations_remove(d, prefix, raw, i - 1);
        assert(services.remove(i).drop_first() =~= d.remove(i - 1));
        assert(services.remove(i)[0] == services[0]);
        assert(d[i - 1] == services[i]);
    }
}

/// Registration order does not affect what a message triggers: two
/// registries holding the same services yield the same multiset of
/// (service, condition) invocations. Dispatch invokes exactly the fired
/// conditions, once each (`records_valid`), so for a given message only
/// the order of the report depends on registration order.
pub proof fn lemma_registration_order_irrelevant<H>(
    s1: Seq<ServiceInfo<H>>,
    s2: Seq<ServiceInfo<H>>,
    prefix: Seq<char>,
    raw: Seq<char>,
)
    requires
        s1.to_multiset() == s2.to_multiset(),
    ensures
        fired_invocations(s1, prefix, raw).to_multiset() == fired_invocations(
            s2,
            prefix,
            raw,
        ).to_multiset(),
    decreases s1.len(),
{
    broadcast use vstd::seq_lib::group_to_multiset_ensures;

    if s1.len() == 0 {
        assert(s2.to_multiset().len() == 0);
        assert(s2.len() == 0);
    } else {
        let a = s1[0];
        assert(s1.contains(a));
        assert(s1.to_multiset().count(a) > 0);
        assert(s2.contains(a));
        let i = choose|i: int| 0 <= i < s2.len() && s2[i] == a;
        assert(s1.remove(0).to_multiset() == s1.to_multiset().remove(a));
        assert(s2.remove(i).to_multiset() == s2.to_multiset().remove(a));
        lemma_registration_order_irrelevant(s1.remove(0), s2.remove(i), prefix, raw);
        lemma_fired_invocations_remove(s1, prefix, raw, 0);
        lemma_fired_invocations_remove(s2, prefix, raw, i);
        assert(fired_invocations(s1, prefix, raw).to_multiset() =~= fired_invocations(
            s2,
            prefix,
            raw,
        ).to_multiset());
    }
}

/// A dispatch report invokes condition `j` of service `i` exactly when
/// that condition fires: immediate from `records_valid`, stated so the
/// law above can be read against the engine's contract.
pub proof fn lemma_records_exactly_fired<H>(
    records: Seq<LaunchRecord>,
    services: Seq<ServiceInfo<H>>,
    prefix: Seq<char>,
    raw: Seq<char>,
    i: int,
    j: int,
)
    requires
        records_valid(records, services, prefix, raw),
    ensures
        has_record(records, i, j) <==> fires_at(services, prefix, raw, i, j),
{
    if has_record(records, i, j) {
        let k = choose|k: int|
            0 <= k < records.len() && (#[trigger] records[k]).service_index == i
                && records[k].timing_index == j;
        assert(record_valid_at(records[k], services, prefix, raw));
    }
}

/// `records_valid` with the search narrowed to conditions at or after the
/// frontier `(i0, j0)`: what remains to be reported once dispatch has
/// passed the frontier.
pub open spec fn records_valid_from<H>(
    records: Seq<LaunchRecord>,
    services: Seq<ServiceInfo<H>>,
    prefix: Seq<char>,
    raw: Seq<char>,
    i0: int,
    j0: int,
) -> bool {
    &&& forall|k: int|
        0 <= k < records.len() ==> record_valid_at(#[trigger] records[k], services, prefix, raw)
    &&& forall|k: int|
        0 <= k < records.len() ==> !lex_lt(
            (#[trigger] records[k]).service_index as int,
            records[k].timing_index as int,
            i0,
            j0,
        )
    &&& forall|i: int, j: int|
        #[trigger] fires_at(services, prefix, raw, i, j) && !lex_lt(i, j, i0, j0) ==> has_record(
            records,
            i,
            j,
        )
    &&& forall|k1: int, k2: int|
        0 <= k1 < k2 < records.len() ==> record_lt(#[trigger] records[k1], #[trigger] records[k2])
}

/// The (service, condition index) pair a record invokes.
pub open spec fn record_pair<H>(services: Seq<ServiceInfo<H>>, r: LaunchRecord) -> (
    ServiceInfo<H>,
    int,
) {
    (services[r.service_index as int], r.timing_index as int)
}

/// The pairs a report invokes, in report order.
pub open spec fn report_pairs<H>(
    records: Seq<LaunchRecord>,
    services: Seq<ServiceInfo<H>>,
) -> Seq<(ServiceInfo<H>, int)> {
    Seq::new(records.len(), |k: int| record_pair(services, records[k]))
}

/// The fired pairs of the whole registry from the frontier `(i, j)` on,
/// in lexicographic order.
pub open spec fn fired_from<H>(
    services: Seq<ServiceInfo<H>>,
    prefix: Seq<char>,
    raw: Seq<char>,
    i: int,
    j: int,
) -> Seq<(ServiceInfo<H>, int)>
    decreases services.len() - i, services[i].initial_timings@.len() - j,
{
    if i < 0 || i >= services.len() || j < 0 {
        Seq::empty()
    } else if j >= services[i].initial_timings@.len() {
        fired_from(services, prefix, raw, i + 1, 0)
    } else if timing_fires(services[i].initial_timings@[j], prefix, raw) {
        seq![(services[i], j)] + fired_from(services, prefix, raw, i, j + 1)
    } else {
        fired_from(services, prefix, raw, i, j + 1)
    }
}

/// The frontier enumeration splits into the current service's remaining
/// conditions and the later services' contributions.
proof fn lemma_fired_from_split<H>(
    services: Seq<ServiceInfo<H>>,
    prefix: Seq<char>,
    raw: Seq<char>,
    i: int,
    j: int,
)
    requires
        0 <= i < services.len(),
        0 <= j <= services[i].initial_timings@.len(),
    ensures
        fired_from(services, prefix, raw, i, j) == fired_in_service_from(
            services[i],
            prefix,
            raw,
            j,
        ) + fired_invocations(services.skip(i + 1), prefix, raw),
    decreases services.len() - i, services[i].initial_timings@.len() - j,
{
    let tl = services[i].initial_timings@.len() as int;
    let later = fired_invocations(services.skip(i + 1), prefix, raw);
    if j >= tl {
        assert(fired_in_service_from(services[i], prefix, raw, j) =~= Seq::<(
            ServiceInfo<H>,
            int,
        )>::empty());
        if i + 1 >= services.len() {
            assert(services.skip(i + 1) =~= Seq::<ServiceInfo<H>>::empty());
            assert(fired_from(services, prefix, raw, i, j) == fired_from(
                services,
                prefix,
                raw,
                i + 1,
                0,
            ));
            assert(fired_from(services, prefix, raw, i + 1, 0) =~= Seq::<(
                ServiceInfo<H>,
                int,
            )>::empty());
            assert(later =~= Seq::<(ServiceInfo<H>, int)>::empty());
            assert(fired_in_service_from(services[i], prefix, raw, j) + later =~= Seq::<(
                ServiceInfo<H>,
                int,
            )>::empty());
        } else {
            lemma_fired_from_split(services, prefix, raw, i + 1, 0);
            let sk = services.skip(i + 1);
            assert(sk.len() > 0);
            assert(sk[0] == services[i + 1]);
            assert(sk.drop_first() =~= services.skip(i + 2));
            assert(later == fired_in_service_from(services[i + 1], prefix, raw, 0)
                + fired_invocations(services.skip(i + 2), prefix, raw));
            assert(fired_in_service_from(services[i], prefix, raw, j) + later =~= later);
        }
    } else if timing_fires(services[i].initial_timings@[j], prefix, raw) {
        lemma_fired_from_split(services, prefix, raw, i, j + 1);
        assert(seq![(services[i], j)] + (fired_in_service_from(services[i], prefix, raw, j + 1)
            + later) =~= (seq![(services[i], j)] + fired_in_service_from(
            services[i],
            prefix,
            raw,
            j + 1,
        )) + later);
    } else {
        lemma_fired_from_split(services, prefix, raw, i, j + 1);
    }
}

/// Enumerating from the start is the whole invocation sequence.
proof fn lemma_fired_from_zero<H>(services: Seq<ServiceInfo<H>>, prefix: Seq<char>, raw: Seq<char>)
    ensures
        fired_from(services, prefix, raw, 0, 0) == fired_invocations(services, prefix, raw),
{
    if services.len() == 0 {
        assert(fired_invocations(services, prefix, raw) =~= Seq::<(ServiceInfo<H>, int)>::empty());
    } else {
        lemma_fired_from_split(services, prefix, raw, 0, 0);
        assert(services.skip(1) =~= services.drop_first());
    }
}

/// A report that is valid from the frontier on invokes, pair for pair,
/// exactly the fired conditions from the frontier on.
proof fn lemma_report_pairs_from<H>(
    records: Seq<LaunchRecord>,
    services: Seq<ServiceInfo<H>>,
    prefix: Seq<char>,
    raw: Seq<char>,
    i0: int,
    j0: int,
)
    requires
        0 <= i0 <= services.len(),
        0 <= j0,
        i0 < services.len() ==> j0 <= services[i0].initial_timings@.len(),
        records_valid_from(records, services, prefix, raw, i0, j0),
    ensures
        report_pairs(records, services) == fired_from(services, prefix, raw, i0, j0),
    decreases services.len() - i0, services[i0].initial_timings@.len() - j0,
{
    if i0 >= services.len() {
        if records.len() > 0 {
            assert(record_valid_at(records[0], services, prefix, raw));
            assert(!lex_lt(
                records[0].service_index as int,
                records[0].timing_index as int,
                i0,
                j0,
            ));
            assert(false);
        }
        assert(report_pairs(records, services) =~= fired_from(services, prefix, raw, i0, j0));
    } else {
        let tl = services[i0].initial_timings@.len() as int;
        if j0 >= tl {
            assert(records_valid_from(records, services, prefix, raw, i0 + 1, 0)) by {
                assert forall|k: int| 0 <= k < records.len() implies !lex_lt(
                    (#[trigger] records[k]).service_index as int,
                    records[k].timing_index as int,
                    i0 + 1,
                    0,
                ) by {
                    assert(record_valid_at(records[k], services, prefix, raw));
                    assert(!lex_lt(
                        records[k].service_index as int,
                        records[k].timing_index as int,
                        i0,
                        j0,
                    ));
                }
                assert forall|i: int, j: int|
                    #[trigger] fires_at(services, prefix, raw, i, j) && !lex_lt(
                        i,
                        j,
                        i0 + 1,
                        0,
                    ) implies has_record(records, i, j) by {
                    assert(!lex_lt(i, j, i0, j0));
                }
            }
            lemma_report_pairs_from(records, services, prefix, raw, i0 + 1, 0);
        } else if timing_fires(services[i0].initial_timings@[j0], prefix, raw) {
            assert(fires_at(services, prefix, raw, i0, j0));
            assert(has_record(records, i0, j0));
            let kw = choose|k: int|
                0 <= k < records.len() && (#[trigger] records[k]).service_index == i0
                    && records[k].timing_index == j0;
            assert(records.len() > 0);
            assert(records[0].service_index as int == i0 && records[0].timing_index as int
                == j0) by {
                if kw > 0 {
                    assert(record_lt(records[0], records[kw]));
                }
                assert(!lex_lt(
                    records[0].service_index as int,
                    records[0].timing_index as int,
                    i0,
                    j0,
                ));
            }
            let t = records.drop_first();
            assert(records_valid_from(t, services, prefix, raw, i0, j0 + 1)) by {
                assert(forall|k: int| 0 <= k < t.len() ==> t[k] == #[trigger] records[k + 1]);
                assert forall|i: int, j: int|
                    #[trigger] fires_at(services, prefix, raw, i, j) && !lex_lt(
                        i,
                        j,
                        i0,
                        j0 + 1,
                    ) implies has_record(t, i, j) by {
                    assert(!lex_lt(i, j, i0, j0));
                    assert(has_record(records, i, j));
                    let k = choose|k: int|
                        0 <= k < records.len() && (#[trigger] records[k]).service_index == i
                            && records[k].timing_index == j;
                    assert(k != 0);
                    assert(t[k - 1] == records[k]);
                }
            }
            lemma_report_pairs_from(t, services, prefix, raw, i0, j0 + 1);
            assert(report_pairs(records, services) =~= seq![(services[i0], j0)] + report_pairs(
                t,
                services,
            ));
        } else {
            assert(records_valid_from(records, services, prefix, raw, i0, j0 + 1)) by {
                assert forall|k: int| 0 <= k < records.len() implies !lex_lt(
                    (#[trigger] records[k]).service_index as int,
                    records[k].timing_index as int,
                    i0,
                    j0 + 1,
                ) by {
                    assert(record_valid_at(records[k], services, prefix, raw));
                    assert(!lex_lt(
                        records[k].service_index as int,
                        records[k].timing_index as int,
                        i0,
                        j0,
                    ));
                    if records[k].service_index as int == i0 && records[k].timing_index as int
                        == j0 {
                        assert(fires_at(services, prefix, raw, i0, j0));
                        assert(false);
                    }
                }
                assert forall|i: int, j: int|
                    #[trigger] fires_at(services, prefix, raw, i, j) && !lex_lt(
                        i,
                        j,
                        i0,
                        j0 + 1,
                    ) implies has_record(records, i, j) by {
                    assert(!lex_lt(i, j, i0, j0));
                }
            }
            lemma_report_pairs_from(records, services, prefix, raw, i0, j0 + 1);
        }
    }
}

/// What dispatch reports is exactly what the registry fires: a valid
/// report invokes, pair for pair and in order, the fired conditions of
/// the registry. Together with the order-independence law this closes the
/// chain from the engine's contract to the matching relation.
pub proof fn lemma_report_is_fired_invocations<H>(
    records: Seq<LaunchRecord>,
    services: Seq<ServiceInfo<H>>,
    prefix: Seq<char>,
    raw: Seq<char>,
)
    requires
        records_valid(records, services, prefix, raw),
    ensures
        report_pairs(records, services) == fired_invocations(services, prefix, raw),
{
    assert(records_valid_from(records, services, prefix, raw, 0, 0));
    lemma_report_pairs_from(records, services, prefix, raw, 0, 0);
    lemma_fired_from_zero(services, prefix, raw);
}

proof fn lemma_report_unique_from<H>(
    r1: Seq<LaunchRecord>,
    r2: Seq<LaunchRecord>,
    services: Seq<ServiceInfo<H>>,
    prefix: Seq<char>,
    raw: Seq<char>,
    i0: int,
    j0: int,
)
    requires
        records_valid_from(r1, services, prefix, raw, i0, j0),
        records_valid_from(r2, services, prefix, raw, i0, j0),
    ensures
        r1.len() == r2.len(),
        forall|k: int|
            0 <= k < r1.len() ==> ((#[trigger] r1[k]).service_index == r2[k].service_index
                && r1[k].timing_index == r2[k].timing_index),
    decreases r1.len(),
{
    if r1.len() == 0 {
        if r2.len() > 0 {
            let a = r2[0].service_index as int;
            let b = r2[0].timing_index as int;
            assert(fires_at(services, prefix, raw, a, b));
            assert(has_record(r1, a, b));
        }
    } else {
        let a1 = r1[0].service_index as int;
        let b1 = r1[0].timing_index as int;
        let a2 = r2[0].service_index as int;
        let b2 = r2[0].timing_index as int;
        // each head is found in the other report, and heads are minimal,
        // so the heads agree
        assert(fires_at(services, prefix, raw, a1, b1));
        assert(has_record(r2, a1, b1));
        let k2 = choose|k: int|
            0 <= k < r2.len() && (#[trigger] r2[k]).service_index == a1 && r2[k].timing_index
                == b1;
        assert(k2 == 0 || record_lt(r2[0], r2[k2]));
        assert(fires_at(services, prefix, raw, a2, b2));
        assert(has_record(r1, a2, b2));
        let k1 = choose|k: int|
            0 <= k < r1.len() && (#[trigger] r1[k]).service_index == a2 && r1[k].timing_index
                == b2;
        assert(k1 == 0 || record_lt(r1[0], r1[k1]));
        assert(a1 == a2 && b1 == b2);
        // the tails report what lies strictly after the shared head
        let t1 = r1.drop_first();
        let t2 = r2.drop_first();
        assert(records_valid_from(t1, services, prefix, raw, a1, b1 + 1)) by {
            assert(forall|k: int| 0 <= k < t1.len() ==> t1[k] == #[trigger] r1[k + 1]);
            assert forall|i: int, j: int|
                #[trigger] fires_at(services, prefix, raw, i, j) && !lex_lt(
                    i,
                    j,
                    a1,
                    b1 + 1,
                ) implies has_record(t1, i, j) by {
                assert(has_record(r1, i, j));
                let k = choose|k: int|
                    0 <= k < r1.len() && (#[trigger] r1[k]).service_index == i
                        && r1[k].timing_index == j;
                assert(k != 0);
                assert(t1[k - 1] == r1[k]);
            }
        }
        assert(records_valid_from(t2, services, prefix, raw, a1, b1 + 1)) by {
            assert(forall|k: int| 0 <= k < t2.len() ==> t2[k] == #[trigger] r2[k + 1]);
            assert forall|i: int, j: int|
                #[trigger] fires_at(services, prefix, raw, i, j) && !lex_lt(
                    i,
                    j,
                    a1,
                    b1 + 1,
                ) implies has_record(t2, i, j) by {
                assert(has_record(r2, i, j));
                let k = choose|k: int|
                    0 <= k < r2.len() && (#[trigger] r2[k]).service_index == i
                        && r2[k].timing_index == j;
                assert(k != 0);
                assert(t2[k - 1] == r2[k]);
            }
        }
        lemma_report_unique_from(t1, t2, services, prefix, raw, a1, b1 + 1);
        assert(forall|k: int| 0 <= k < t1.len() ==> t1[k] == #[trigger] r1[k + 1]);
        assert(forall|k: int| 0 <= k < t2.len() ==> t2[k] == #[trigger] r2[k + 1]);
    }
}

/// The dispatch report is pinned down: any two reports that are valid for
/// the same registry, prefix and message invoke the same conditions of
/// the same services, in the same order. What can differ between runs is
/// only what the handlers themselves returned.
pub proof fn lemma_dispatch_report_unique<H>(
    r1: Seq<LaunchRecord>,
    r2: Seq<LaunchRecord>,
    services: Seq<ServiceInfo<H>>,
    prefix: Seq<char>,
    raw: Seq<char>,
)
    requires
        records_valid(r1, services, prefix, raw),
        records_valid(r2, services, prefix, raw),
    ensures
        r1.len() == r2.len(),
        forall|k: int|
            0 <= k < r1.len() ==> ((#[trigger] r1[k]).service_index == r2[k].service_index
                && r1[k].timing_index == r2[k].timing_index && r1[k].service_name@
                == r2[k].service_name@),
{
    assert(records_valid_from(r1, services, prefix, raw, 0, 0));
    assert(records_valid_from(r2, services, prefix, raw, 0, 0));
    lemma_report_unique_from(r1, r2, services, prefix, raw, 0, 0);
    assert forall|k: int| 0 <= k < r1.len() implies r1[k].service_name@
        == (#[trigger] r2[k]).service_name@ by {
        assert(record_valid_at(r1[k], services, prefix, raw));
        assert(record_valid_at(r2[k], services, prefix, raw));
    }
}

/// One consumed event extends the fold that `context_after` computes.
proof fn lemma_context_after_take_step<C>(init: Option<C>, s: Seq<ClientEvent<C>>, k: int)
    requires
        0 <= k < s.len(),
    ensures
        context_after(init, s.take(k + 1)) == context_step(
            context_after(init, s.take(k)),
            s[k],
        ),
{
    assert(s.take(k + 1).drop_last() =~= s.take(k));
    assert(s.take(k + 1).last() == s[k]);
}

} // verus!
