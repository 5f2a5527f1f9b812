//! What holds of the listener from step to step, and over whole runs.

use crate::fetch::elapsed;
use crate::laws::client::law_events_keep_invariant;
use crate::listener::{
    device_name, free_id, is_due, ActionView, ListenerStage, ListenerView, OutgoingView, StepView,
    ANNOUNCE_INTERVAL, ANNOUNCE_PORT, SCAN_DURATION, STATUS_INTERVAL, STATUS_PORT,
};
use crate::model::{DatagramView, DeviceView};
use crate::packet::{keep_alive_id, keep_alive_packet, status_id, status_packet};
use crate::state::ClientView;
use vstd::prelude::*;

verus! {

/// Whether the listener still looks for numbers in use.
pub open spec fn is_scanning(stage: ListenerStage) -> bool {
    stage == ListenerStage::Scan || stage == ListenerStage::ScanAnnouncement || stage
        == ListenerStage::ScanStatus
}

/// How listener and client go together: while scanning no device is known; then both go
/// by the same number of ours, which is no device's.
pub open spec fn in_step(listener: ListenerView, client: ClientView) -> bool {
    if is_scanning(listener.stage) {
        client.devices == Map::<u8, DeviceView>::empty()
    } else {
        client.our_device_id == listener.device_id && !client.devices.contains_key(
            client.our_device_id,
        )
    }
}

/// A new listener and a new client go together.
pub proof fn law_start_is_in_step(listener: ListenerView)
    requires
        listener.stage == ListenerStage::Scan,
    ensures
        in_step(listener, ClientView::initial()),
{
}

/// Every step keeps listener and client together: in particular, our own number is never
/// among the devices.
pub proof fn law_own_number_is_no_device(
    listener: ListenerView,
    client: ClientView,
    received: Option<DatagramView>,
    now: u64,
    running: bool,
)
    requires
        client.inv(),
        in_step(listener, client),
    ensures
        ({
            let step = listener.next(client, received, now, running);
            in_step(step.listener, step.client) && step.client.inv()
        }),
{
    let step = listener.next(client, received, now, running);
    law_new_number(listener.used_ids, 6);
    match received {
        Some(packet) => {
            law_events_keep_invariant(client, packet.data, packet, now);
            law_events_keep_invariant(
                client.with_announcement(packet, now),
                packet.data,
                packet,
                now,
            );
            lemma_status_keeps_out(client, packet, now);
            lemma_announcement_keeps_out(client, packet, now);
        },
        None => {
            law_events_keep_invariant(
                client,
                Seq::empty(),
                DatagramView { data: Seq::empty(), source: listener.own_addr() },
                now,
            );
        },
    }
}

/// A packet on the status port brings in no device under our number.
proof fn lemma_status_keeps_out(client: ClientView, packet: DatagramView, now: u64)
    requires
        !client.devices.contains_key(client.our_device_id),
    ensures
        !client.with_status_packet(packet, now).devices.contains_key(client.our_device_id),
        client.with_status_packet(packet, now).our_device_id == client.our_device_id,
{
}

/// A packet on the announcement port brings in no device under our number.
proof fn lemma_announcement_keeps_out(client: ClientView, packet: DatagramView, now: u64)
    requires
        !client.devices.contains_key(client.our_device_id),
    ensures
        !client.with_announcement(packet, now).devices.contains_key(client.our_device_id),
        client.with_announcement(packet, now).our_device_id == client.our_device_id,
{
}

/// The number that is taken is free: nobody was heard to use it, and no higher one is
/// free. Only where all are in use it is 7.
pub proof fn law_new_number(used: Set<u8>, from: nat)
    requires
        from <= 6,
    ensures
        1 <= free_id(used, from) <= 7,
        free_id(used, from) <= 6 ==> !used.contains(free_id(used, from)) && free_id(used, from)
            <= from,
        free_id(used, from) == 7 <==> forall|id: u8| 1 <= id <= from ==> #[trigger] used.contains(
            id,
        ),
        free_id(used, from) <= 6 ==> forall|id: u8|
            free_id(used, from) < id <= from ==> #[trigger] used.contains(id),
    decreases from,
{
    if from > 0 {
        law_new_number(used, (from - 1) as nat);
        assert forall|id: u8|
            1 <= id <= from && used.contains(from as u8) && id > from - 1 implies
            #[trigger] used.contains(id) by {
            assert(id == from as u8);
        }
    }
}

/// A number in use that was heard while scanning is noted, and what was noted stays so.
pub proof fn law_heard_numbers_are_noted(
    listener: ListenerView,
    client: ClientView,
    received: Option<DatagramView>,
    now: u64,
    running: bool,
)
    ensures
        ({
            let after = listener.next(client, received, now, running).listener;
            &&& listener.used_ids.subset_of(after.used_ids)
            &&& listener.stage == ListenerStage::ScanAnnouncement ==> (received matches Some(packet)
                ==> (keep_alive_id(packet.data) matches Some(id) ==> after.used_ids.contains(id)))
            &&& listener.stage == ListenerStage::ScanStatus ==> (received matches Some(packet)
                ==> (status_id(packet.data) matches Some(id) ==> after.used_ids.contains(id)))
        }),
{
}

/// A number that was noted to be in use is not taken.
pub proof fn law_heard_number_is_not_taken(
    listener: ListenerView,
    client: ClientView,
    received: Option<DatagramView>,
    now: u64,
    running: bool,
    id: u8,
)
    requires
        is_scanning(listener.stage),
        listener.used_ids.contains(id),
        1 <= id <= 6,
    ensures
        ({
            let after = listener.next(client, received, now, running);
            !is_scanning(after.listener.stage) ==> after.listener.device_id != id
                && after.client.our_device_id != id
        }),
{
    law_new_number(listener.used_ids, 6);
}

/// Packets from our own address change nothing that is known.
pub proof fn law_own_packets_are_ignored(
    listener: ListenerView,
    client: ClientView,
    packet: DatagramView,
    now: u64,
    running: bool,
)
    requires
        listener.stage == ListenerStage::AwaitStatus,
        packet.source == listener.own_addr(),
    ensures
        listener.next(client, Some(packet), now, running).client == client,
{
}

/// Once on the network, a keep-alive packet is sent only when the last one was long enough
/// ago. It is ours, and counts the devices that are known.
pub proof fn law_keep_alives_keep_their_distance(
    listener: ListenerView,
    client: ClientView,
    received: Option<DatagramView>,
    now: u64,
    running: bool,
)
    requires
        !is_scanning(listener.stage),
    ensures
        ({
            let step = listener.next(client, received, now, running);
            step.action is SendKeepAlive ==> {
                &&& running
                &&& is_due(listener.last_announce, ANNOUNCE_INTERVAL, now)
                &&& step.action == ActionView::SendKeepAlive(
                    listener.keep_alive(step.client.devices.len()),
                )
                &&& step.listener.stage == ListenerStage::KeepAliveSent
            }
        }),
{
}

/// When a keep-alive packet was sent is remembered.
pub proof fn law_keep_alive_is_remembered(
    listener: ListenerView,
    client: ClientView,
    received: Option<DatagramView>,
    now: u64,
    running: bool,
)
    ensures
        ({
            let step = listener.next(client, received, now, running);
            &&& listener.stage == ListenerStage::KeepAliveSent ==> step.listener.last_announce
                == Some(now)
            &&& listener.stage == ListenerStage::StatusSent ==> step.listener.last_status == Some(
                now,
            )
            &&& !is_scanning(listener.stage) && listener.stage != ListenerStage::KeepAliveSent
                ==> step.listener.last_announce == listener.last_announce
            &&& !is_scanning(listener.stage) && listener.stage != ListenerStage::StatusSent
                ==> step.listener.last_status == listener.last_status
        }),
{
}

/// Once on the network, a status packet is sent only when the last one was long enough
/// ago. Status packets are numbered in turn, from 0 after 255.
pub proof fn law_status_packets_are_numbered(
    listener: ListenerView,
    client: ClientView,
    received: Option<DatagramView>,
    now: u64,
    running: bool,
)
    requires
        !is_scanning(listener.stage),
    ensures
        ({
            let step = listener.next(client, received, now, running);
            if step.action is SendStatus {
                &&& is_due(listener.last_status, STATUS_INTERVAL, now)
                &&& step.action == ActionView::SendStatus(listener.status(listener.packet_counter))
                &&& step.listener.packet_counter == (listener.packet_counter + 1) % 256
            } else {
                step.listener.packet_counter == listener.packet_counter
            }
        }),
{
}

/// While scanning nothing is sent.
pub proof fn law_scanning_is_silent(
    listener: ListenerView,
    client: ClientView,
    received: Option<DatagramView>,
    now: u64,
    running: bool,
)
    ensures
        ({
            let step = listener.next(client, received, now, running);
            is_scanning(step.listener.stage) ==> !(step.action is SendKeepAlive) && !(
            step.action is SendStatus) && step.client == client
        }),
{
}

/// A listener that is told to stop does so at the latest at the end of the round, and then
/// does nothing any more.
pub proof fn law_stopping(
    listener: ListenerView,
    client: ClientView,
    received: Option<DatagramView>,
    now: u64,
)
    ensures
        ({
            let step = listener.next(client, received, now, false);
            &&& listener.stage == ListenerStage::Scan ==> step.action is Stop
            &&& listener.stage == ListenerStage::AwaitAnnouncement ==> step.action is Stop
            &&& step.action is Stop ==> step.listener.stage == ListenerStage::Stopped
        }),
        listener.stage == ListenerStage::Stopped ==> forall|again: bool|
            (#[trigger] listener.next(client, received, now, again)) == (StepView {
                listener,
                client,
                action: ActionView::Stop,
            }),
{
}

/// One step of a run: what is known when it is made, and what is handed in. Between two
/// steps others may change what is known.
#[verifier::ext_equal]
pub struct EventView {
    pub client: ClientView,
    pub received: Option<DatagramView>,
    pub now: u64,
    pub running: bool,
}

/// The listener before step `i` of a run from `start` on; with the number of all steps,
/// the listener after the run.
pub open spec fn listener_before(
    start: ListenerView,
    steps: Seq<StepView>,
    i: int,
) -> ListenerView {
    if i == 0 {
        start
    } else {
        steps[i - 1].listener
    }
}

/// Whether `step` is what `event` leads to.
pub open spec fn follows(listener: ListenerView, event: EventView, step: StepView) -> bool {
    step == listener.next(event.client, event.received, event.now, event.running)
}

/// Whether `steps` is what `events` lead to in turn, from a listener `start` that begins to
/// scan. Time does not run backwards.
pub open spec fn is_run(
    start: ListenerView,
    events: Seq<EventView>,
    steps: Seq<StepView>,
) -> bool {
    &&& start.stage == ListenerStage::Scan
    &&& steps.len() == events.len()
    &&& forall|i: int|
        0 <= i < steps.len() ==> follows(
            #[trigger] listener_before(start, steps, i),
            events[i],
            steps[i],
        )
    &&& forall|i: int, j: int| 0 <= i <= j < events.len() ==> events[i].now <= events[j].now
}

/// How many of the first `n` steps send a status packet.
pub open spec fn statuses_in(steps: Seq<StepView>, n: int) -> nat
    decreases n,
{
    if n <= 0 {
        0
    } else if steps[n - 1].action is SendStatus {
        statuses_in(steps, n - 1) + 1
    } else {
        statuses_in(steps, n - 1)
    }
}

/// What a single step does to what a run depends on.
spec fn step_facts(listener: ListenerView, step: StepView, now: u64) -> bool {
    let after = step.listener;
    &&& after.local_ip == listener.local_ip
    &&& after.scan_start == listener.scan_start
    &&& step.action is SendKeepAlive <==> after.stage == ListenerStage::KeepAliveSent
    &&& step.action is SendStatus <==> after.stage == ListenerStage::StatusSent
    &&& step.action matches ActionView::SendKeepAlive(packet) ==> packet == after.keep_alive(
        step.client.devices.len(),
    )
    &&& step.action matches ActionView::SendStatus(packet) ==> packet == after.status(
        listener.packet_counter,
    )
    &&& if is_scanning(listener.stage) {
        &&& step.action !is SendStatus
        &&& !is_scanning(after.stage) ==> {
            &&& after.device_id == free_id(after.used_ids, 6)
            &&& step.client.our_device_id == after.device_id
            &&& after.packet_counter == 0
            &&& after.stage == ListenerStage::Stopped || elapsed(listener.scan_start, now)
                >= SCAN_DURATION
        }
    } else {
        &&& !is_scanning(after.stage)
        &&& after.device_id == listener.device_id
        &&& after.used_ids == listener.used_ids
        &&& listener.stage == ListenerStage::Stopped ==> after.stage == ListenerStage::Stopped
        &&& after.last_announce == if listener.stage == ListenerStage::KeepAliveSent {
            Some(now)
        } else {
            listener.last_announce
        }
        &&& after.last_status == if listener.stage == ListenerStage::StatusSent {
            Some(now)
        } else {
            listener.last_status
        }
        &&& step.action is SendKeepAlive ==> listener.stage != ListenerStage::KeepAliveSent
            && is_due(listener.last_announce, ANNOUNCE_INTERVAL, now)
        &&& step.action is SendStatus ==> listener.stage != ListenerStage::StatusSent && is_due(
            listener.last_status,
            STATUS_INTERVAL,
            now,
        )
        &&& after.packet_counter == if step.action is SendStatus {
            (listener.packet_counter + 1) % 256
        } else {
            listener.packet_counter as int
        }
    }
}

/// The facts hold of every step.
proof fn lemma_step(listener: ListenerView, event: EventView, step: StepView)
    requires
        follows(listener, event, step),
    ensures
        step_facts(listener, step, event.now),
{
}

/// The facts hold of the steps of a run.
proof fn lemma_run_facts(
    start: ListenerView,
    events: Seq<EventView>,
    steps: Seq<StepView>,
    i: int,
)
    requires
        is_run(start, events, steps),
        0 <= i < steps.len(),
    ensures
        step_facts(listener_before(start, steps, i), steps[i], events[i].now),
{
    lemma_step(listener_before(start, steps, i), events[i], steps[i]);
}

/// Whether a time at or after `time` is noted.
spec fn is_noted(last: Option<u64>, time: u64) -> bool {
    match last {
        Some(then) => time <= then,
        None => false,
    }
}

/// What holds before step `i` of a run.
spec fn run_inv(start: ListenerView, times: Seq<u64>, steps: Seq<StepView>, i: int) -> bool {
    let listener = listener_before(start, steps, i);
    &&& listener.local_ip == start.local_ip
    &&& listener.scan_start == start.scan_start
    &&& if is_scanning(listener.stage) {
        &&& statuses_in(steps, i) == 0
        &&& forall|j: int|
            0 <= j < i ==> (#[trigger] steps[j]).action !is SendKeepAlive && steps[j].action
                !is SendStatus && is_scanning(steps[j].listener.stage)
    } else {
        &&& i > 0
        &&& listener.device_id == free_id(listener.used_ids, 6)
        &&& listener.packet_counter == statuses_in(steps, i) % 256
        &&& listener.stage == ListenerStage::Stopped || elapsed(start.scan_start, times[i - 1])
            >= SCAN_DURATION
        &&& forall|j: int|
            0 <= j < i && !is_scanning((#[trigger] steps[j]).listener.stage)
                ==> steps[j].listener.device_id == listener.device_id
        &&& forall|j: int|
            0 <= j < i && (#[trigger] steps[j]).action is SendKeepAlive ==> {
                ||| j == i - 1
                ||| is_noted(listener.last_announce, times[j + 1])
            }
        &&& forall|j: int|
            0 <= j < i && (#[trigger] steps[j]).action is SendStatus ==> {
                ||| j == i - 1
                ||| is_noted(listener.last_status, times[j + 1])
            }
    }
}

/// `run_inv` goes from step to step.
proof fn lemma_run_step(start: ListenerView, times: Seq<u64>, steps: Seq<StepView>, i: int)
    requires
        0 <= i < steps.len() == times.len(),
        forall|a: int, b: int| 0 <= a <= b < times.len() ==> times[a] <= times[b],
        step_facts(listener_before(start, steps, i), steps[i], times[i]),
        i > 0 ==> step_facts(listener_before(start, steps, i - 1), steps[i - 1], times[i - 1]),
        run_inv(start, times, steps, i),
    ensures
        run_inv(start, times, steps, i + 1),
{
    let before = listener_before(start, steps, i);
    let after = steps[i].listener;
    if i > 0 {
        assert(times[i - 1] <= times[i]);
    }
    if !is_scanning(after.stage) {
        assert forall|j: int|
            0 <= j < i + 1 && (#[trigger] steps[j]).action is SendKeepAlive implies j == i
            || is_noted(after.last_announce, times[j + 1]) by {
            if j < i {
                assert(times[j + 1] <= times[i]);
            }
        }
        assert forall|j: int|
            0 <= j < i + 1 && (#[trigger] steps[j]).action is SendStatus implies j == i
            || is_noted(after.last_status, times[j + 1]) by {
            if j < i {
                assert(times[j + 1] <= times[i]);
            }
        }
    }
}

/// The times of a row of events.
spec fn times_of(events: Seq<EventView>) -> Seq<u64> {
    Seq::new(events.len(), |i: int| events[i].now)
}

/// `run_inv` holds all along a run.
proof fn lemma_run(start: ListenerView, events: Seq<EventView>, steps: Seq<StepView>, i: int)
    requires
        is_run(start, events, steps),
        0 <= i <= steps.len(),
    ensures
        run_inv(start, times_of(events), steps, i),
    decreases i,
{
    if i > 0 {
        lemma_run(start, events, steps, i - 1);
        lemma_run_facts(start, events, steps, i - 1);
        if i > 1 {
            lemma_run_facts(start, events, steps, i - 2);
        }
        lemma_run_step(start, times_of(events), steps, i - 1);
    }
}

/// What is sent over a whole run, the step that joins the network included. Keep-alive
/// packets carry the number that the scan left us, our name and addresses, and how many
/// devices are known; status packets carry that number, our name, and their place in the
/// row of status packets, counted from 0 and modulo 256. Everything goes to the broadcast
/// address of our network, on the port it belongs to, and nothing before the scan is over.
pub proof fn law_run_sends_our_packets(
    start: ListenerView,
    events: Seq<EventView>,
    steps: Seq<StepView>,
    i: int,
)
    requires
        is_run(start, events, steps),
        0 <= i < steps.len(),
    ensures
        ({
            let us = listener_before(start, steps, steps.len() as int);
            &&& us.local_ip == start.local_ip
            &&& steps[i].action is SendKeepAlive || steps[i].action is SendStatus ==> {
                &&& us.device_id == free_id(us.used_ids, 6)
                &&& events[i].now >= start.scan_start + SCAN_DURATION
            }
            &&& steps[i].action matches ActionView::SendKeepAlive(packet) ==> packet == (
            OutgoingView {
                data: keep_alive_packet(
                    us.device_id,
                    device_name(),
                    us.mac(),
                    us.local_ip,
                    steps[i].client.devices.len() as u8,
                ),
                ip: us.broadcast(),
                port: ANNOUNCE_PORT,
            })
            &&& steps[i].action matches ActionView::SendStatus(packet) ==> packet == (
            OutgoingView {
                data: status_packet(
                    us.device_id,
                    device_name(),
                    (statuses_in(steps, i) % 256) as u8,
                ),
                ip: us.broadcast(),
                port: STATUS_PORT,
            })
        }),
{
    lemma_run(start, events, steps, i);
    lemma_run(start, events, steps, i + 1);
    lemma_run(start, events, steps, steps.len() as int);
    lemma_run_facts(start, events, steps, i);
    if steps[i].action is SendKeepAlive || steps[i].action is SendStatus {
        lemma_one_number(start, times_of(events), steps, i);
    }
}

/// What a step sends, told by the listener after the run.
proof fn lemma_one_number(start: ListenerView, times: Seq<u64>, steps: Seq<StepView>, i: int)
    requires
        0 <= i < steps.len(),
        run_inv(start, times, steps, i),
        run_inv(start, times, steps, i + 1),
        run_inv(start, times, steps, steps.len() as int),
        step_facts(listener_before(start, steps, i), steps[i], times[i]),
        steps[i].action is SendKeepAlive || steps[i].action is SendStatus,
    ensures
        ({
            let us = listener_before(start, steps, steps.len() as int);
            &&& us.device_id == free_id(us.used_ids, 6)
            &&& times[i] >= start.scan_start + SCAN_DURATION
            &&& steps[i].action matches ActionView::SendKeepAlive(packet) ==> packet
                == us.keep_alive(steps[i].client.devices.len())
            &&& steps[i].action matches ActionView::SendStatus(packet) ==> packet == us.status(
                (statuses_in(steps, i) % 256) as u8,
            )
        }),
{
}

/// The number that a run sends under is the one that the client gets when the scan ends.
pub proof fn law_run_tells_the_client_our_number(
    start: ListenerView,
    events: Seq<EventView>,
    steps: Seq<StepView>,
    i: int,
)
    requires
        is_run(start, events, steps),
        0 <= i < steps.len(),
        is_scanning(listener_before(start, steps, i).stage),
        !is_scanning(steps[i].listener.stage),
    ensures
        steps[i].client.our_device_id == listener_before(
            start,
            steps,
            steps.len() as int,
        ).device_id,
{
    lemma_run(start, events, steps, steps.len() as int);
    lemma_run_facts(start, events, steps, i);
}

/// Over a whole run, the step that joins the network included, two keep-alive packets are
/// at least 1.5 s apart: from when the earlier one was out, which the step after it tells,
/// to when the later one is handed out.
pub proof fn law_run_spaces_keep_alives(
    start: ListenerView,
    events: Seq<EventView>,
    steps: Seq<StepView>,
    i: int,
    j: int,
)
    requires
        is_run(start, events, steps),
        0 <= i < j < steps.len(),
        steps[i].action is SendKeepAlive,
        steps[j].action is SendKeepAlive,
    ensures
        events[j].now >= events[i + 1].now + ANNOUNCE_INTERVAL,
        events[j].now >= events[i].now + ANNOUNCE_INTERVAL,
{
    lemma_run(start, events, steps, j);
    lemma_run_facts(start, events, steps, j - 1);
    lemma_run_facts(start, events, steps, j);
    lemma_spaced(start, times_of(events), steps, i, j);
    assert(events[i].now <= events[i + 1].now);
}

/// Over a whole run two status packets are at least 200 ms apart: from when the earlier
/// one was out, which the step after it tells, to when the later one is handed out.
pub proof fn law_run_spaces_status_packets(
    start: ListenerView,
    events: Seq<EventView>,
    steps: Seq<StepView>,
    i: int,
    j: int,
)
    requires
        is_run(start, events, steps),
        0 <= i < j < steps.len(),
        steps[i].action is SendStatus,
        steps[j].action is SendStatus,
    ensures
        events[j].now >= events[i + 1].now + STATUS_INTERVAL,
        events[j].now >= events[i].now + STATUS_INTERVAL,
{
    lemma_run(start, events, steps, j);
    lemma_run_facts(start, events, steps, j - 1);
    lemma_run_facts(start, events, steps, j);
    lemma_spaced(start, times_of(events), steps, i, j);
    assert(events[i].now <= events[i + 1].now);
}

/// Two packets of a kind are an interval apart.
proof fn lemma_spaced(
    start: ListenerView,
    times: Seq<u64>,
    steps: Seq<StepView>,
    i: int,
    j: int,
)
    requires
        0 <= i < j < steps.len(),
        run_inv(start, times, steps, j),
        step_facts(listener_before(start, steps, j - 1), steps[j - 1], times[j - 1]),
        step_facts(listener_before(start, steps, j), steps[j], times[j]),
    ensures
        steps[i].action is SendKeepAlive && steps[j].action is SendKeepAlive ==> times[j]
            >= times[i + 1] + ANNOUNCE_INTERVAL,
        steps[i].action is SendStatus && steps[j].action is SendStatus ==> times[j] >= times[i + 1]
            + STATUS_INTERVAL,
{
}

} // verus!
