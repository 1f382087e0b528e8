//! What a link guarantees across messages and timers.

use vstd::prelude::*;
#[allow(unused_imports)]
use crate::frame::{
    decoding_consumes_a_prefix, decoding_resumes, encoded_frame_is_read_back, first_frame, guarded,
    trimmed, v2_bytes, FrameModel,
    MAX_BUFFERED,
};
#[allow(unused_imports)]
use crate::link::{
    addressed, command_acked, command_ladder, contacted, count_announced, first_bytes,
    frame_counted, frame_handled, frames_in, heartbeat_sent, item_received, item_requested, message_handled,
    own_frame, left_over, param_reported, serviced, setpoint_pumped, taken_up, upload_acked, ActionModel,
    CmdAck, Download, DownloadOutcome, LinkCommand, LinkModel, Pending, ReplyModel, Upload,
    UploadOutcome,
};
#[allow(unused_imports)]
use crate::messages::{
    field_text, mission_item_is_read_back, text_char, EventModel, MissionAck, MissionCount, MissionItemInt, MissionRequest,
    Vec3, MAV_MISSION_ACCEPTED, MISSION_ITEM_INT,
};
#[allow(unused_imports)]
use crate::params::typed_reading;

verus! {

/// The command in flight has been sent at least once and no more often than
/// the configured number of attempts allows.
pub open spec fn within_ladder(m: LinkModel) -> bool {
    m.pending matches Some(p) ==> 1 <= p.attempts && (p.attempts <= m.cfg.cmd_attempts
        || p.attempts == 1)
}

/// No event ever takes a command past its attempts.
pub proof fn attempts_stay_within_the_ladder(
    m: LinkModel,
    f: FrameModel,
    cmd: LinkCommand,
    stepped: Vec3,
    now: u64,
)
    requires
        within_ladder(m),
    ensures
        within_ladder(serviced(m, now)),
        within_ladder(frame_handled(m, f, now)),
        within_ladder(taken_up(m, cmd, now)),
        within_ladder(heartbeat_sent(m)),
        within_ladder(setpoint_pumped(m, now, stepped)),
{
    reveal(frame_handled);
}

/// While a command waits for its acknowledgement, nothing else leaves the
/// queue and the command is not sent again.
pub proof fn one_command_at_a_time(m: LinkModel, now: u64)
    requires
        m.pending matches Some(p) && now < p.deadline,
    ensures
        serviced(m, now).pending == m.pending,
        serviced(m, now).queue == m.queue,
{
}

/// Servicing the ladder at each of several times, in order.
pub open spec fn laddered(m: LinkModel, times: Seq<u64>) -> LinkModel
    decreases times.len(),
{
    if times.len() == 0 {
        m
    } else {
        laddered(command_ladder(m, times[0]), times.drop_first())
    }
}

/// Each of the times finds the command in flight overdue.
pub open spec fn all_overdue(m: LinkModel, times: Seq<u64>) -> bool
    decreases times.len(),
{
    times.len() == 0 || {
        &&& m.pending matches Some(p) && times[0] >= p.deadline
        &&& all_overdue(command_ladder(m, times[0]), times.drop_first())
    }
}

/// A command that is never acknowledged is sent as often as configured, then
/// its caller is told how often, and the link is free for the next command.
pub proof fn unacknowledged_command_is_given_up(m: LinkModel, p: Pending, times: Seq<u64>)
    requires
        m.pending == Some(p),
        p.ticket is Some,
        1 <= p.attempts <= m.cfg.cmd_attempts,
        times.len() == m.cfg.cmd_attempts - p.attempts + 1,
        all_overdue(m, times),
    ensures
        laddered(m, times).pending is None,
        laddered(m, times).outbox.len() == m.outbox.len() + times.len(),
        laddered(m, times).outbox.last() == ActionModel::Reply(
            p.ticket->0,
            ReplyModel::Command(CmdAck::Timeout { attempts: m.cfg.cmd_attempts }),
        ),
        forall|i: int|
            m.outbox.len() <= i < laddered(m, times).outbox.len() - 1 ==> (
            #[trigger] laddered(m, times).outbox[i]) is Send,
        forall|i: int|
            0 <= i < m.outbox.len() ==> #[trigger] laddered(m, times).outbox[i] == m.outbox[i],
    decreases times.len(),
{
    let next = command_ladder(m, times[0]);
    let rest = times.drop_first();
    if p.attempts < m.cfg.cmd_attempts {
        let q = next.pending->0;
        unacknowledged_command_is_given_up(next, q, rest);
        assert(next.outbox.len() == m.outbox.len() + 1);
    } else {
        assert(laddered(next, rest) == next);
    }
}

/// An acknowledgement of another command, or for another station, leaves the
/// command in flight waiting.
pub proof fn foreign_ack_changes_nothing(
    m: LinkModel,
    p: Pending,
    command: u16,
    result: u8,
    target_system: u8,
    target_component: u8,
)
    requires
        m.pending == Some(p),
        command != p.command || (target_system != 0 && target_system != m.cfg.manager_sysid),
    ensures
        command_acked(
            m,
            EventModel::CommandAck { command, result, target_system, target_component },
        ) == m,
{
}

proof fn message_keeps_the_queue(m: LinkModel, f: FrameModel, now: u64)
    ensures
        message_handled(m, f, now).subscribed == m.subscribed,
        message_handled(m, f, now).queue == m.queue,
{
}

/// The subscriptions go out once: after first contact no frame queues them
/// again, and nothing forgets that contact was made.
pub proof fn subscriptions_are_queued_once(
    m: LinkModel,
    f: FrameModel,
    cmd: LinkCommand,
    stepped: Vec3,
    now: u64,
)
    requires
        m.subscribed,
    ensures
        contacted(m, f) == m,
        frame_handled(m, f, now).subscribed,
        frame_handled(m, f, now).queue == m.queue,
        serviced(m, now).subscribed,
        taken_up(m, cmd, now).subscribed,
        heartbeat_sent(m).subscribed,
        setpoint_pumped(m, now, stepped).subscribed,
{
    reveal(frame_handled);
    message_keeps_the_queue(contacted(frame_counted(m, f, now), f), f, now);
}

/// The vehicle asks for the first `n` items of an upload, in order.
pub open spec fn items_asked_for(m: LinkModel, mission_type: u8, n: nat, now: u64) -> LinkModel
    decreases n,
{
    if n == 0 {
        m
    } else {
        item_requested(
            items_asked_for(m, mission_type, (n - 1) as nat, now),
            MissionRequest {
                seq: (n - 1) as u16,
                target_system: m.cfg.manager_sysid,
                target_component: m.cfg.manager_compid,
                mission_type,
            },
            now,
        )
    }
}

/// The datagram that carries item `i` of an upload.
pub open spec fn item_datagram(m: LinkModel, u: Upload, i: int) -> ActionModel {
    ActionModel::Send(
        v2_bytes(
            own_frame(
                m.cfg,
                MISSION_ITEM_INT,
                addressed(m.cfg, u.items[i], i as u16, u.mission_type).bytes(),
            ),
            ((m.seq + i) % 256) as u8,
            38,
        ),
    )
}

proof fn next_item_is_handed_out(m: LinkModel, u: Upload, seq: u16, now: u64)
    requires
        m.upload == Some(u),
        u.items_sent == seq,
        seq < u.items.len(),
        seq < 0xffff,
    ensures
        ({
            let r = item_requested(
                m,
                MissionRequest {
                    seq,
                    target_system: m.cfg.manager_sysid,
                    target_component: m.cfg.manager_compid,
                    mission_type: u.mission_type,
                },
                now,
            );
            &&& r.upload matches Some(v) && v.items == u.items && v.mission_type == u.mission_type
                && v.ticket == u.ticket && v.items_sent == seq + 1
            &&& r.cfg == m.cfg
            &&& r.seq == (m.seq + 1) % 256
            &&& r.outbox == m.outbox.push(
                ActionModel::Send(
                    v2_bytes(
                        own_frame(
                            m.cfg,
                            MISSION_ITEM_INT,
                            addressed(m.cfg, u.items[seq as int], seq, u.mission_type).bytes(),
                        ),
                        m.seq,
                        38,
                    ),
                ),
            )
        }),
{
}

proof fn one_more_datagram(m: LinkModel, u: Upload, outbox: Seq<ActionModel>, k: nat)
    requires
        outbox.len() == m.outbox.len() + k,
        forall|i: int| 0 <= i < m.outbox.len() ==> #[trigger] outbox[i] == m.outbox[i],
        forall|i: int|
            0 <= i < k ==> #[trigger] outbox[m.outbox.len() + i] == item_datagram(m, u, i),
    ensures
        ({
            let r = outbox.push(item_datagram(m, u, k as int));
            &&& r.len() == m.outbox.len() + k + 1
            &&& forall|i: int| 0 <= i < m.outbox.len() ==> #[trigger] r[i] == m.outbox[i]
            &&& forall|i: int|
                0 <= i < k + 1 ==> #[trigger] r[m.outbox.len() + i] == item_datagram(m, u, i)
        }),
{
    let r = outbox.push(item_datagram(m, u, k as int));
    assert forall|i: int| 0 <= i < k + 1 implies #[trigger] r[m.outbox.len() + i] == item_datagram(
        m,
        u,
        i,
    ) by {
        if i < k {
            assert(outbox[m.outbox.len() + i] == item_datagram(m, u, i));
        }
    }
}

/// A vehicle that asks for the items of an upload in order is sent exactly
/// those items, in order, under consecutive sequence numbers.
pub proof fn upload_hands_out_its_items(m: LinkModel, u: Upload, n: nat, now: u64)
    requires
        m.upload == Some(u),
        u.items_sent == 0,
        n <= u.items.len(),
        n <= 0xffff,
    ensures
        ({
            let r = items_asked_for(m, u.mission_type, n, now);
            &&& r.upload matches Some(v) && v.items == u.items && v.mission_type == u.mission_type
                && v.ticket == u.ticket && v.items_sent == n
            &&& r.cfg == m.cfg
            &&& r.seq == (m.seq + n) % 256
            &&& r.outbox.len() == m.outbox.len() + n
            &&& forall|i: int| 0 <= i < m.outbox.len() ==> #[trigger] r.outbox[i] == m.outbox[i]
            &&& forall|i: int|
                0 <= i < n ==> #[trigger] r.outbox[m.outbox.len() + i] == item_datagram(m, u, i)
        }),
    decreases n,
{
    if n > 0 {
        let k = (n - 1) as nat;
        upload_hands_out_its_items(m, u, k, now);
        let before = items_asked_for(m, u.mission_type, k, now);
        let r = items_asked_for(m, u.mission_type, n, now);
        next_item_is_handed_out(before, before.upload->0, k as u16, now);
        assert(r == item_requested(
            before,
            MissionRequest {
                seq: k as u16,
                target_system: before.cfg.manager_sysid,
                target_component: before.cfg.manager_compid,
                mission_type: u.mission_type,
            },
            now,
        ));
        assert(r.outbox == before.outbox.push(item_datagram(m, u, k as int)));
        one_more_datagram(m, u, before.outbox, k);
    }
}

/// An upload whose items were all asked for and which the vehicle accepts is
/// answered as done, with every item sent and acknowledged.
pub proof fn accepted_upload_is_answered(m: LinkModel, u: Upload, now: u64, ack: MissionAck)
    requires
        m.upload == Some(u),
        u.items_sent == 0,
        u.items.len() <= 0xffff,
        ack.mission_type == u.mission_type,
        ack.mission_result == MAV_MISSION_ACCEPTED,
    ensures
        ({
            let r = upload_acked(items_asked_for(m, u.mission_type, u.items.len(), now), ack);
            &&& r.upload is None
            &&& r.outbox.last() == ActionModel::Reply(
                u.ticket,
                ReplyModel::Upload(
                    UploadOutcome::Done {
                        mission_type: u.mission_type,
                        items_sent: u.items.len() as u16,
                        items_acked: u.items.len() as u16,
                    },
                ),
            )
        }),
{
    upload_hands_out_its_items(m, u, u.items.len(), now);
}

/// The vehicle sends the first `n` of the given items, in order.
pub open spec fn items_sent_back(
    m: LinkModel,
    items: Seq<MissionItemInt>,
    n: nat,
    now: u64,
) -> LinkModel
    decreases n,
{
    if n == 0 {
        m
    } else {
        item_received(items_sent_back(m, items, (n - 1) as nat, now), items[n - 1], now)
    }
}

/// A download to which the vehicle sends its items in order is answered with
/// exactly those items.
pub proof fn download_collects_the_items(
    m: LinkModel,
    d: Download,
    c: MissionCount,
    items: Seq<MissionItemInt>,
    now: u64,
)
    requires
        m.download == Some(d),
        c.mission_type == d.mission_type,
        c.count == items.len(),
        items.len() > 0,
        forall|i: int|
            0 <= i < items.len() ==> (#[trigger] items[i]).seq == i && items[i].mission_type
                == d.mission_type,
    ensures
        ({
            let r = items_sent_back(count_announced(m, c, now), items, items.len(), now);
            &&& r.download is None
            &&& r.outbox.last() == ActionModel::Reply(
                d.ticket,
                ReplyModel::Download(
                    DownloadOutcome::Done { mission_type: d.mission_type, items },
                ),
            )
        }),
{
    let start = count_announced(m, c, now);
    let k = (items.len() - 1) as nat;
    download_progress(start, start.download->0, items, k, now);
    let before = items_sent_back(start, items, k, now);
    let last = items[k as int];
    assert(before.download->0.items.push(last) =~= items);
}

proof fn download_progress(
    m: LinkModel,
    d: Download,
    items: Seq<MissionItemInt>,
    n: nat,
    now: u64,
)
    requires
        m.download == Some(d),
        d.items.len() == 0,
        d.expected_count == items.len(),
        n < items.len(),
        forall|i: int|
            0 <= i < items.len() ==> (#[trigger] items[i]).seq == i && items[i].mission_type
                == d.mission_type,
    ensures
        items_sent_back(m, items, n, now).download matches Some(e) && e.items == items.subrange(
            0,
            n as int,
        ) && e.mission_type == d.mission_type && e.ticket == d.ticket && e.expected_count
            == d.expected_count,
    decreases n,
{
    if n == 0 {
        assert(items.subrange(0, 0) =~= d.items);
    } else {
        let k = (n - 1) as nat;
        download_progress(m, d, items, k, now);
        assert(items.subrange(0, n as int) =~= items.subrange(0, k as int).push(items[k as int]));
    }
}

/// A parameter id a write can be matched by: ASCII, no zero byte, and short
/// enough for the wire field.
pub open spec fn matchable_id(id: Seq<char>) -> bool {
    &&& id.len() <= 15
    &&& forall|i: int| 0 <= i < id.len() ==> 0 < (#[trigger] id[i]) as int && (id[i] as int) < 128
}

proof fn ascii_field_reads_back(id: Seq<char>, b: Seq<u8>, from: int, n: nat)
    requires
        matchable_id(id),
        b.len() == id.len(),
        forall|i: int| 0 <= i < id.len() ==> b[i] == #[trigger] id[i] as u8,
        0 <= from <= id.len(),
        n == 16 - from,
    ensures
        field_text(b, from, n) == id.subrange(from, id.len() as int),
    decreases n,
{
    if from < id.len() {
        assert(b[from] == id[from] as u8);
        ascii_field_reads_back(id, b, from + 1, (n - 1) as nat);
        assert(text_char(b[from]) == id[from]);
        assert(seq![id[from]] + id.subrange(from + 1, id.len() as int) =~= id.subrange(
            from,
            id.len() as int,
        ));
    } else {
        assert(id.subrange(from, id.len() as int) =~= Seq::<char>::empty());
    }
}

/// A parameter write is confirmed by the vehicle's echo: its caller is handed
/// the value the vehicle took, read in the type the vehicle gave.
pub proof fn echo_confirms_the_write(
    m: LinkModel,
    cmd: LinkCommand,
    now: u64,
    value: u32,
    param_type: u8,
    param_count: u16,
    param_index: u16,
    then: u64,
)
    requires
        cmd is SetParam,
        matchable_id(cmd->param_id@),
    ensures
        ({
            let echo = EventModel::ParamValue {
                param_id: cmd->param_id@,
                value,
                param_type,
                param_count,
                param_index,
            };
            let r = param_reported(taken_up(m, cmd, now), echo, then);
            &&& r.param is None
            &&& r.outbox.last() == ActionModel::Reply(
                cmd->SetParam_ticket,
                ReplyModel::Param(Some(typed_reading(value, param_type))),
            )
        }),
{
    let id = cmd->param_id@;
    assert forall|i: int| 0 <= i < id.len() implies #[trigger] id[i] as u32 <= 127 by {
        assert((id[i] as int) < 128);
    }
    vstd::utf8::is_ascii_chars_encode_utf8(id);
    let b = vstd::utf8::encode_utf8(id);
    assert(first_bytes(b, 15) == b);
    ascii_field_reads_back(id, b, 0, 16);
    assert(id.subrange(0, id.len() as int) =~= id);
}

/// The items of an upload as the vehicle gets them: numbered in order and
/// addressed to it.
pub open spec fn as_sent(m: LinkModel, u: Upload) -> Seq<MissionItemInt> {
    Seq::new(u.items.len(), |i: int| addressed(m.cfg, u.items[i], i as u16, u.mission_type))
}

/// The action sends one frame, and the frame carries the item.
pub open spec fn carries(a: ActionModel, item: MissionItemInt) -> bool {
    a matches ActionModel::Send(bytes) && (first_frame(bytes).0 matches Some(f) && f.msgid
        == MISSION_ITEM_INT && MissionItemInt::of(f.payload) == item) && first_frame(bytes).1.len()
        == 0
}

proof fn trimmed_is_shorter(p: Seq<u8>)
    ensures
        trimmed(p).len() <= p.len(),
    decreases p.len(),
{
    if p.len() > 0 && p.last() == 0 {
        trimmed_is_shorter(p.drop_last());
    }
}

proof fn item_datagram_carries(m: LinkModel, u: Upload, i: int)
    requires
        0 <= i < u.items.len() <= 0xffff,
    ensures
        carries(item_datagram(m, u, i), as_sent(m, u)[i]),
{
    let item = addressed(m.cfg, u.items[i], i as u16, u.mission_type);
    let f = own_frame(m.cfg, MISSION_ITEM_INT, item.bytes());
    let seq = ((m.seq + i) % 256) as u8;
    let none = Seq::<u8>::empty();
    mission_item_is_read_back(item);
    trimmed_is_shorter(item.bytes());
    encoded_frame_is_read_back(f, seq, 38, none);
    assert(v2_bytes(f, seq, 38) + none =~= v2_bytes(f, seq, 38));
}

/// What an upload hands to the vehicle, a download gets back from it: where the
/// vehicle asks for the items in order and later sends back what it was sent,
/// the download is answered with the items of the upload, all fields kept but
/// their number, address and kind of mission.
pub proof fn uploaded_mission_comes_back(
    m: LinkModel,
    u: Upload,
    now: u64,
    l: LinkModel,
    d: Download,
    c: MissionCount,
    then_ms: u64,
)
    requires
        m.upload == Some(u),
        u.items_sent == 0,
        0 < u.items.len() <= 0xffff,
        l.download == Some(d),
        d.mission_type == u.mission_type,
        c.mission_type == u.mission_type,
        c.count == u.items.len(),
    ensures
        ({
            let sent = as_sent(m, u);
            let r = items_asked_for(m, u.mission_type, u.items.len(), now);
            let back = items_sent_back(count_announced(l, c, then_ms), sent, sent.len(), then_ms);
            &&& forall|i: int|
                0 <= i < sent.len() ==> carries(
                    #[trigger] r.outbox[m.outbox.len() + i],
                    sent[i],
                )
            &&& back.download is None
            &&& back.outbox.last() == ActionModel::Reply(
                d.ticket,
                ReplyModel::Download(
                    DownloadOutcome::Done { mission_type: u.mission_type, items: sent },
                ),
            )
            &&& forall|i: int|
                0 <= i < sent.len() ==> #[trigger] sent[i] == (MissionItemInt {
                    seq: i as u16,
                    target_system: sent[i].target_system,
                    target_component: sent[i].target_component,
                    mission_type: u.mission_type,
                    ..u.items[i]
                })
        }),
{
    let sent = as_sent(m, u);
    upload_hands_out_its_items(m, u, u.items.len(), now);
    let r = items_asked_for(m, u.mission_type, u.items.len(), now);
    assert forall|i: int| 0 <= i < sent.len() implies carries(
        #[trigger] r.outbox[m.outbox.len() + i],
        sent[i],
    ) by {
        item_datagram_carries(m, u, i);
    }
    download_collects_the_items(l, d, c, sent, then_ms);
}

/// How the vehicle's bytes are cut into datagrams does not matter: the same
/// frames come out, in the same order, and the same bytes stay buffered, as
/// long as the buffer is not overrun.
pub proof fn datagram_bounds_do_not_matter(a: Seq<u8>, b: Seq<u8>)
    requires
        a.len() + b.len() <= MAX_BUFFERED,
    ensures
        frames_in(a + b) == frames_in(a) + frames_in(left_over(a) + b),
        left_over(a + b) == left_over(left_over(a) + b),
        left_over(a).len() <= a.len(),
    decreases a.len(),
{
    let s = a + b;
    decoding_resumes(a, b);
    decoding_consumes_a_prefix(a);
    decoding_consumes_a_prefix(s);
    let (f, rest) = first_frame(a);
    assert(guarded(a) == a && guarded(s) == s);
    match f {
        Some(g) => {
            datagram_bounds_do_not_matter(rest, b);
            assert(frames_in(s) =~= seq![g] + frames_in(rest + b));
            assert(frames_in(a) =~= seq![g] + frames_in(rest));
            assert(left_over(a) == left_over(rest));
            assert(frames_in(s) =~= frames_in(a) + frames_in(left_over(a) + b));
        },
        None => {
            let t = rest + b;
            assert(guarded(t) == t);
            decoding_consumes_a_prefix(t);
            assert(first_frame(s) == first_frame(t));
            assert(frames_in(a) =~= Seq::<FrameModel>::empty());
            assert(left_over(a) == rest);
            assert(frames_in(s) =~= frames_in(t));
            assert(left_over(s) =~= left_over(t));
        },
    }
}

/// No request is forgotten: one that gives way to a later one of its kind is
/// answered there and then, and everything else that was to be done stays so.
pub proof fn replaced_requests_are_answered(m: LinkModel, cmd: LinkCommand, now: u64)
    ensures
        ({
            let out = taken_up(m, cmd, now).outbox;
            &&& out.len() >= m.outbox.len()
            &&& forall|k: int| 0 <= k < m.outbox.len() ==> out[k] == m.outbox[k]
            &&& cmd is SetParam && m.param is Some ==> out.last() == ActionModel::Reply(
                m.param->0.ticket,
                ReplyModel::Param(None),
            )
            &&& cmd is MissionUpload && m.upload is Some ==> out.last() == ActionModel::Reply(
                m.upload->0.ticket,
                ReplyModel::Upload(
                    UploadOutcome::Timeout {
                        mission_type: m.upload->0.mission_type,
                        items_sent: 0,
                        items_acked: 0,
                    },
                ),
            )
            &&& cmd is MissionDownload && m.download is Some ==> out.last() == ActionModel::Reply(
                m.download->0.ticket,
                ReplyModel::Download(
                    DownloadOutcome::Timeout { mission_type: m.download->0.mission_type },
                ),
            )
            &&& !(cmd is SetParam) ==> taken_up(m, cmd, now).param == m.param
            &&& !(cmd is MissionUpload) ==> taken_up(m, cmd, now).upload == m.upload
            &&& !(cmd is MissionDownload) ==> taken_up(m, cmd, now).download == m.download
        }),
{
}

} // verus!
