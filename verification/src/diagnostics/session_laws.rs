//! What every firmware test session keeps, whatever the operator types.
use vstd::prelude::*;
use crate::diagnostics::fw_test::{
    Board, Failure, PartView, SessionView, command_spec, expired_lines, flag_spec, fresh_part,
    fresh_session, lemma_stop_parts, members_spec, next_read, parts_expiries,
    session_wf, stop_spec, stopped, tick_part_spec, tick_parts, tick_spec, keepalive_spec,
    expiry_entries, first_above, retained, part_boards, stop_parts, stop_lines, can_line,
    find_part, resolve_spec, any_output, with_part, board_key, qualified, id_names,
    flag_names, part_switches, parts_switches, switches_spec, has_prefix, off_lines, drive_spec,
    slot_mask,
};
use crate::number::Decimal;
use crate::keyed::after;
use crate::text::{dec, hex2, hex_digit, words};

verus! {

/// A board on which no test is on.
pub open spec fn quiet(p: PartView) -> bool {
    &&& p.outputs.len() == 0
    &&& p.reads.len() == 0
    &&& !p.status
    &&& !p.inputs
}

proof fn lemma_quiet_part(p: PartView, now: u64)
    requires
        quiet(p),
    ensures
        tick_part_spec(p, false, now) == (p, Seq::<Seq<char>>::empty()),
{
    assert(after(p.outputs, now) =~= p.outputs);
    assert(expired_lines(p.board, p.outputs, now) =~= Seq::<Seq<char>>::empty());
    assert(keepalive_spec(PartView { outputs: after(p.outputs, now), ..p }, false) is None);
    assert(first_above(p.reads, p.last_read) is None);
    assert(next_read(p.reads, p.last_read) is None);
}

proof fn lemma_quiet_parts(parts: Seq<PartView>, now: u64)
    requires
        forall|i: int| 0 <= i < parts.len() ==> quiet(#[trigger] parts[i]),
    ensures
        tick_parts(parts, false, now) == (parts, Seq::<Seq<char>>::empty()),
    decreases parts.len(),
{
    if parts.len() > 0 {
        let t = parts.drop_last();
        assert forall|i: int| 0 <= i < t.len() implies quiet(#[trigger] t[i]) by {
            assert(t[i] == parts[i]);
        }
        lemma_quiet_parts(t, now);
        lemma_quiet_part(parts.last(), now);
        assert(t.push(parts.last()) =~= parts);
        assert(Seq::<Seq<char>>::empty() + Seq::<Seq<char>>::empty() =~= Seq::<Seq<char>>::empty());
    }
}

/// Every test is off when a session starts: a fresh session of any target
/// sends nothing and stays as it is, whenever it ticks.
pub proof fn lemma_fresh_session_is_silent(board: Board, duration: u64, now: u64)
    ensures
        tick_spec(fresh_session(board, duration), now) == (
            fresh_session(board, duration),
            Seq::<Seq<char>>::empty(),
        ),
{
    let s = fresh_session(board, duration);
    assert forall|i: int| 0 <= i < s.parts.len() implies quiet(#[trigger] s.parts[i]) by {
        assert(s.parts[i] == fresh_part(members_spec(board)[i]));
    }
    lemma_quiet_parts(s.parts, now);
    assert(SessionView { parts: s.parts, ..s } == s);
}

/// A refused command leaves the session exactly as it was.
pub proof fn lemma_refused_command_changes_nothing(s: SessionView, line: Seq<char>, now: nat)
    ensures
        command_spec(s, line, now).1 is Err ==> command_spec(s, line, now).0 == s,
{
}

/// While the watchdog test runs, every command but `stop` is refused.
pub proof fn lemma_watchdog_refuses_commands(s: SessionView, line: Seq<char>, now: nat)
    requires
        s.silent_until is Some,
        words(line) != seq!["stop"@],
    ensures
        command_spec(s, line, now) == (s, Err::<Seq<Seq<char>>, Failure>(Failure::WatchdogActive)),
{
}

/// While the watchdog test runs, a tick sends nothing and changes nothing;
/// once it is over, the tick stops the session as `stop` does.
pub proof fn lemma_watchdog_tick(s: SessionView, now: u64)
    requires
        s.silent_until is Some,
    ensures
        now < s.silent_until->0 ==> tick_spec(s, now) == (s, Seq::<Seq<char>>::empty()),
        now >= s.silent_until->0 ==> tick_spec(s, now) == stop_spec(s),
{
}

proof fn lemma_no_expiries(sb: Board, parts: Seq<PartView>)
    requires
        forall|i: int| 0 <= i < parts.len() ==> (#[trigger] parts[i]).outputs.len() == 0,
    ensures
        parts_expiries(sb, parts) == Seq::<(Seq<char>, u64)>::empty(),
    decreases parts.len(),
{
    if parts.len() > 0 {
        let t = parts.drop_last();
        assert forall|i: int| 0 <= i < t.len() implies (#[trigger] t[i]).outputs.len() == 0 by {
            assert(t[i] == parts[i]);
        }
        lemma_no_expiries(sb, t);
        assert(parts[parts.len() - 1].outputs.len() == 0);
        assert(expiry_entries(sb, parts.last().board, parts.last().outputs) =~= Seq::<
            (Seq<char>, u64),
        >::empty());
        assert(parts_expiries(sb, parts) =~= Seq::<(Seq<char>, u64)>::empty());
    }
}

/// `stop` reaches every board: afterwards no output is on and nothing is read
/// anywhere, so no output waits to switch off; the communication test is off
/// and the watchdog test is over. The status, encoder and input switches stay.
pub proof fn lemma_stop_ends_outputs(s: SessionView)
    ensures
        stop_spec(s).0.board == s.board,
        stop_spec(s).0.parts.len() == s.parts.len(),
        forall|i: int|
            0 <= i < s.parts.len() ==> #[trigger] stop_spec(s).0.parts[i] == (PartView {
                outputs: seq![],
                reads: seq![],
                ..s.parts[i]
            }),
        parts_expiries(s.board, stop_spec(s).0.parts) == Seq::<(Seq<char>, u64)>::empty(),
        !stop_spec(s).0.communication,
        stop_spec(s).0.silent_until is None,
{
    lemma_stop_parts(s.parts);
    let t = stop_spec(s).0;
    assert forall|i: int| 0 <= i < t.parts.len() implies (#[trigger] t.parts[i]).outputs.len()
        == 0 by {
        assert(t.parts[i] == stopped(s.parts[i]));
    }
    lemma_no_expiries(s.board, t.parts);
}

/// Stopping a stopped session changes nothing more.
pub proof fn lemma_stop_is_idempotent(s: SessionView)
    ensures
        stop_spec(stop_spec(s).0).0 == stop_spec(s).0,
{
    let t = stop_spec(s).0;
    lemma_stop_parts(s.parts);
    lemma_stop_parts(t.parts);
    assert forall|i: int| 0 <= i < t.parts.len() implies #[trigger] stopped(t.parts[i]) == t.parts[i] by {
        assert(t.parts[i] == stopped(s.parts[i]));
    }
    assert(stop_spec(t).0.parts =~= t.parts);
}

/// Switching a flag (status, encoder, inputs or a servo read) never switches
/// an output, on any board.
pub proof fn lemma_flags_leave_outputs(s: SessionView, index: int, name: Seq<char>, enabled: bool)
    requires
        0 <= index < s.parts.len(),
    ensures
        flag_spec(s, index, name, enabled).0.parts.len() == s.parts.len(),
        forall|i: int|
            0 <= i < s.parts.len() ==> (#[trigger] flag_spec(s, index, name, enabled).0.parts[i]).outputs
                == s.parts[i].outputs,
{
}

proof fn lemma_tick_parts_outputs(parts: Seq<PartView>, communication: bool, now: u64)
    ensures
        tick_parts(parts, communication, now).0.len() == parts.len(),
        forall|i: int|
            0 <= i < parts.len() ==> (#[trigger] tick_parts(parts, communication, now).0[i]).outputs
                == after(parts[i].outputs, now) && tick_parts(parts, communication, now).0[i].board
                == parts[i].board,
    decreases parts.len(),
{
    if parts.len() > 0 {
        let t = parts.drop_last();
        lemma_tick_parts_outputs(t, communication, now);
        let r = tick_parts(parts, communication, now).0;
        assert forall|i: int| 0 <= i < parts.len() implies (#[trigger] r[i]).outputs == after(
            parts[i].outputs,
            now,
        ) && r[i].board == parts[i].board by {
            if i < t.len() {
                assert(r[i] == tick_parts(t, communication, now).0[i]);
                assert(t[i] == parts[i]);
            } else {
                assert(r[i] == tick_part_spec(parts.last(), communication, now).0);
            }
        }
    }
}

/// An output is kept exactly while its switch-off time is after `now`.
pub proof fn lemma_after_keeps_live(s: Seq<(u8, u64)>, now: u64, e: (u8, u64))
    ensures
        after(s, now).contains(e) <==> s.contains(e) && e.1 > now,
    decreases s.len(),
{
    if s.len() > 0 {
        let t = s.drop_last();
        lemma_after_keeps_live(t, now, e);
        assert(s =~= t.push(s.last()));
        if after(t, now).contains(e) {
            let k = choose|k: int| 0 <= k < after(t, now).len() && after(t, now)[k] == e;
            if s.last().1 > now {
                assert(after(s, now)[k] == e);
            }
        }
        if s.contains(e) && e.1 > now {
            let k = choose|k: int| 0 <= k < s.len() && s[k] == e;
            if k < t.len() {
                assert(t[k] == e);
            } else {
                assert(after(s, now)[after(s, now).len() - 1] == e);
            }
        }
        if after(s, now).contains(e) {
            let k = choose|k: int| 0 <= k < after(s, now).len() && after(s, now)[k] == e;
            if k < after(t, now).len() {
                assert(after(t, now)[k] == e);
            } else {
                assert(e == s.last());
                assert(s[s.len() - 1] == e);
            }
        }
    }
}

/// Outputs switch off on their own: outside the watchdog test, a tick leaves
/// each board with exactly those outputs whose switch-off time is after `now`,
/// the others on.
pub proof fn lemma_tick_expires_due_outputs(s: SessionView, now: u64, i: int, e: (u8, u64))
    requires
        s.silent_until is None,
        0 <= i < s.parts.len(),
    ensures
        tick_spec(s, now).0.parts.len() == s.parts.len(),
        tick_spec(s, now).0.parts[i].outputs.contains(e) <==> s.parts[i].outputs.contains(e) && e.1
            > now,
{
    lemma_tick_parts_outputs(s.parts, s.communication, now);
    lemma_after_keeps_live(s.parts[i].outputs, now, e);
}

proof fn lemma_stop_parts_boards(parts: Seq<PartView>)
    ensures
        part_boards(stop_parts(parts).0) == part_boards(parts),
    decreases parts.len(),
{
    if parts.len() > 0 {
        let t = parts.drop_last();
        lemma_stop_parts_boards(t);
        assert(part_boards(stop_parts(parts).0) =~= part_boards(stop_parts(t).0).push(
            parts.last().board,
        ));
        assert(part_boards(parts) =~= part_boards(t).push(parts.last().board));
    }
}

proof fn lemma_find_part_range(parts: Seq<PartView>, key: Seq<char>)
    ensures
        -1 <= find_part(parts, key) < parts.len(),
    decreases parts.len(),
{
    if parts.len() > 0 {
        lemma_find_part_range(parts.drop_last(), key);
    }
}

proof fn lemma_with_part_boards(s: SessionView, index: int, p: PartView)
    requires
        0 <= index < s.parts.len(),
        p.board == s.parts[index].board,
    ensures
        with_part(s, index, p).board == s.board,
        part_boards(with_part(s, index, p).parts) == part_boards(s.parts),
{
    assert(part_boards(with_part(s, index, p).parts) =~= part_boards(s.parts));
}

proof fn lemma_command_keeps_boards(s: SessionView, line: Seq<char>, now: nat)
    requires
        s.board == Board::Network || s.parts.len() > 0,
    ensures
        command_spec(s, line, now).0.board == s.board,
        part_boards(command_spec(s, line, now).0.parts) == part_boards(s.parts),
{
    lemma_stop_parts_boards(s.parts);
    let t = words(line);
    if t != seq!["stop"@] && s.silent_until is None && t != seq!["watchdog"@] && (t.len() == 2
        || t.len() == 3) && (t[0] == "on"@ || t[0] == "off"@) && t[1] != "communication"@ {
        match resolve_spec(s, t[1]) {
            Err(_) => {},
            Ok((index, name)) => {
                if s.board == Board::Network {
                    let k = crate::number::dot_pos(t[1]);
                    lemma_find_part_range(s.parts, t[1].take(k));
                }
                assert(0 <= index < s.parts.len());
                let p = s.parts[index];
                let r = command_spec(s, line, now).0;
                if r != s {
                    assert(exists|q: PartView| q.board == p.board && r == with_part(s, index, q));
                    let q = choose|q: PartView| q.board == p.board && r == with_part(s, index, q);
                    lemma_with_part_boards(s, index, q);
                }
            },
        }
    }
}

/// Commands never add or remove a board: after any command the session
/// holds the same boards in the same order (only `retain_boards`, after the
/// probes, drops boards of a network session).
pub proof fn lemma_commands_keep_boards(s: SessionView, line: Seq<char>, now: nat)
    requires
        session_wf(s),
    ensures
        command_spec(s, line, now).0.board == s.board,
        part_boards(command_spec(s, line, now).0.parts) == part_boards(s.parts),
{
    lemma_command_keeps_boards(s, line, now);
}

proof fn lemma_tick_parts_boards(parts: Seq<PartView>, communication: bool, now: u64)
    ensures
        part_boards(tick_parts(parts, communication, now).0) == part_boards(parts),
{
    lemma_tick_parts_outputs(parts, communication, now);
    assert(part_boards(tick_parts(parts, communication, now).0) =~= part_boards(parts));
}

/// A tick never adds or removes a board either.
pub proof fn lemma_ticks_keep_boards(s: SessionView, now: u64)
    ensures
        tick_spec(s, now).0.board == s.board,
        part_boards(tick_spec(s, now).0.parts) == part_boards(s.parts),
{
    lemma_stop_parts_boards(s.parts);
    lemma_tick_parts_boards(s.parts, s.communication, now);
}

/// A network session that kept all three boards stops with the same four
/// lines whatever was typed and whenever it ticked: STOP and every slot off
/// to cctl, then the stop frames of svmd and DCMD.
pub proof fn lemma_network_stop_lines(s: SessionView)
    requires
        s.board == Board::Network,
        part_boards(s.parts) == members_spec(Board::Network),
    ensures
        stop_spec(s).1 == seq![
            "STOP"@,
            "ENABLE 7 0"@,
            can_line(768, 0, 0, 0, 0),
            can_line(784, 3, 0, 0, 0),
        ],
{
    let ps = s.parts;
    let bs = members_spec(Board::Network);
    assert(bs.len() == 3);
    assert(part_boards(ps).len() == ps.len());
    assert(ps.len() == 3);
    assert(ps[0].board == part_boards(ps)[0]);
    assert(ps[1].board == part_boards(ps)[1]);
    assert(ps[2].board == part_boards(ps)[2]);
    assert(ps[0].board == Board::Cctl);
    assert(ps[1].board == Board::Svmd);
    assert(ps[2].board == Board::Dcmd);
    let p1 = ps.take(1);
    let p2 = ps.take(2);
    assert(p1.drop_last() =~= Seq::<PartView>::empty());
    assert(p2.drop_last() =~= p1);
    assert(ps.drop_last() =~= p2);
    assert(stop_parts(Seq::<PartView>::empty()).1 =~= Seq::<Seq<char>>::empty());
    assert(stop_parts(p1).1 =~= stop_lines(Board::Cctl));
    assert(stop_parts(p2).1 =~= stop_lines(Board::Cctl) + stop_lines(Board::Svmd));
    assert(stop_parts(ps).1 =~= stop_lines(Board::Cctl) + stop_lines(Board::Svmd) + stop_lines(
        Board::Dcmd,
    ));
}

proof fn lemma_entries_len(sb: Board, pb: Board, outs: Seq<(u8, u64)>)
    ensures
        expiry_entries(sb, pb, outs).len() == outs.len(),
    decreases outs.len(),
{
    if outs.len() > 0 {
        lemma_entries_len(sb, pb, outs.drop_last());
    }
}

proof fn lemma_outputs_expiries(sb: Board, parts: Seq<PartView>)
    ensures
        any_output(parts) <==> parts_expiries(sb, parts).len() > 0,
    decreases parts.len(),
{
    if parts.len() > 0 {
        let t = parts.drop_last();
        lemma_outputs_expiries(sb, t);
        lemma_entries_len(sb, parts.last().board, parts.last().outputs);
        if any_output(t) {
            let i = choose|i: int| 0 <= i < t.len() && t[i].outputs.len() > 0;
            assert(parts[i] == t[i]);
        }
        if any_output(parts) {
            let i = choose|i: int| 0 <= i < parts.len() && parts[i].outputs.len() > 0;
            if i < t.len() {
                assert(t[i] == parts[i]);
            }
        }
        if parts.last().outputs.len() > 0 {
            assert(parts[parts.len() - 1].outputs.len() > 0);
        }
    }
}

/// `watchdog` is taken exactly when the watchdog test is not already running
/// and some output is on (some output waits to switch off); it sends nothing
/// and silences the session for 500 ms. Until `stop` or the tick that ends
/// it, every other command is refused (`lemma_watchdog_refuses_commands`).
pub proof fn lemma_watchdog_needs_outputs(s: SessionView, line: Seq<char>, now: nat)
    requires
        words(line) == seq!["watchdog"@],
    ensures
        command_spec(s, line, now).1 is Ok <==> (s.silent_until is None && parts_expiries(
            s.board,
            s.parts,
        ).len() > 0),
        command_spec(s, line, now).1 is Ok ==> command_spec(s, line, now).1 == Ok::<
            Seq<Seq<char>>,
            Failure,
        >(seq![]) && command_spec(s, line, now).0.silent_until == Some((now + 500) as u64),
{
    reveal_strlit("watchdog");
    reveal_strlit("stop");
    assert(seq!["watchdog"@] != seq!["stop"@]) by {
        assert(seq!["watchdog"@][0].len() != seq!["stop"@][0].len());
    }
    lemma_outputs_expiries(s.board, s.parts);
}

/// The entries whose switch-off time is after `now`, in the same order.
spec fn live(e: Seq<(Seq<char>, u64)>, now: u64) -> Seq<(Seq<char>, u64)>
    decreases e.len(),
{
    if e.len() == 0 {
        seq![]
    } else {
        let r = live(e.drop_last(), now);
        if e.last().1 > now {
            r.push(e.last())
        } else {
            r
        }
    }
}

proof fn lemma_live_add(a: Seq<(Seq<char>, u64)>, b: Seq<(Seq<char>, u64)>, now: u64)
    ensures
        live(a + b, now) == live(a, now) + live(b, now),
    decreases b.len(),
{
    if b.len() == 0 {
        assert(a + b =~= a);
        assert(live(a, now) + live(b, now) =~= live(a, now));
    } else {
        lemma_live_add(a, b.drop_last(), now);
        assert((a + b).drop_last() =~= a + b.drop_last());
        assert((a + b).last() == b.last());
        if b.last().1 > now {
            assert(live(a, now) + live(b.drop_last(), now).push(b.last()) =~= (live(a, now)
                + live(b.drop_last(), now)).push(b.last()));
        }
    }
}

proof fn lemma_entries_after(sb: Board, pb: Board, outs: Seq<(u8, u64)>, now: u64)
    ensures
        expiry_entries(sb, pb, after(outs, now)) == live(expiry_entries(sb, pb, outs), now),
    decreases outs.len(),
{
    if outs.len() > 0 {
        lemma_entries_after(sb, pb, outs.drop_last(), now);
        let e = expiry_entries(sb, pb, outs);
        assert(e.drop_last() =~= expiry_entries(sb, pb, outs.drop_last()));
        if outs.last().1 > now {
            assert(after(outs, now).drop_last() =~= after(outs.drop_last(), now));
        }
    }
}

proof fn lemma_parts_expiries_tick(sb: Board, parts: Seq<PartView>, communication: bool, now: u64)
    ensures
        parts_expiries(sb, tick_parts(parts, communication, now).0) == live(
            parts_expiries(sb, parts),
            now,
        ),
    decreases parts.len(),
{
    if parts.len() > 0 {
        let t = parts.drop_last();
        lemma_parts_expiries_tick(sb, t, communication, now);
        let r = tick_parts(parts, communication, now).0;
        lemma_tick_parts_outputs(parts, communication, now);
        lemma_tick_parts_outputs(t, communication, now);
        assert(r.drop_last() =~= tick_parts(t, communication, now).0);
        assert(r.last() == r[parts.len() - 1]);
        lemma_entries_after(sb, parts.last().board, parts.last().outputs, now);
        lemma_live_add(
            parts_expiries(sb, t),
            expiry_entries(sb, parts.last().board, parts.last().outputs),
            now,
        );
    }
}

/// An entry whose switch-off time is after `now`.
pub open spec fn later_than(now: u64) -> spec_fn((Seq<char>, u64)) -> bool {
    |e: (Seq<char>, u64)| e.1 > now
}

proof fn lemma_live_is_filter(e: Seq<(Seq<char>, u64)>, now: u64)
    ensures
        live(e, now) == e.filter(later_than(now)),
    decreases e.len(),
{
    reveal(Seq::filter);
    if e.len() > 0 {
        lemma_live_is_filter(e.drop_last(), now);
    }
}

/// Outside the watchdog test, a tick leaves exactly the outputs whose
/// switch-off time is after `now`, in the same order as before.
pub proof fn lemma_tick_keeps_live_in_order(s: SessionView, now: u64)
    requires
        s.silent_until is None,
    ensures
        parts_expiries(s.board, tick_spec(s, now).0.parts) == parts_expiries(s.board, s.parts).filter(
            later_than(now),
        ),
{
    lemma_parts_expiries_tick(s.board, s.parts, s.communication, now);
    lemma_live_is_filter(parts_expiries(s.board, s.parts), now);
}

/// After the probes, a network session keeps a board exactly when it is cctl
/// (the link itself) or answered; what it keeps is unchanged.
pub proof fn lemma_retained_boards(parts: Seq<PartView>, reachable: Seq<Board>, p: PartView)
    ensures
        retained(parts, reachable).contains(p) <==> parts.contains(p) && (p.board == Board::Cctl
            || reachable.contains(p.board)),
    decreases parts.len(),
{
    if parts.len() > 0 {
        let t = parts.drop_last();
        lemma_retained_boards(t, reachable, p);
        assert(parts =~= t.push(parts.last()));
        let r = retained(parts, reachable);
        let rt = retained(t, reachable);
        let keep = parts.last().board == Board::Cctl || reachable.contains(parts.last().board);
        if rt.contains(p) {
            let k = choose|k: int| 0 <= k < rt.len() && rt[k] == p;
            if keep {
                assert(r[k] == p);
            }
            let j = choose|j: int| 0 <= j < t.len() && t[j] == p;
            assert(parts[j] == p);
        }
        if r.contains(p) {
            let k = choose|k: int| 0 <= k < r.len() && r[k] == p;
            if keep && k == rt.len() {
                assert(p == parts.last());
                assert(parts[parts.len() - 1] == p);
            } else {
                assert(rt[k] == p);
            }
        }
        if parts.contains(p) && (p.board == Board::Cctl || reachable.contains(p.board)) {
            let j = choose|j: int| 0 <= j < parts.len() && parts[j] == p;
            if j < t.len() {
                assert(t[j] == p);
            } else {
                assert(r[r.len() - 1] == p);
            }
        }
    }
}

/// What follows the first dot of a name (empty when it has none).
pub open spec fn after_dot(n: Seq<char>) -> Seq<char>
    decreases n.len(),
{
    if n.len() == 0 {
        n
    } else if n[0] == '.' {
        n.skip(1)
    } else {
        after_dot(n.skip(1))
    }
}

/// A feature name without its board prefix: in a network session names
/// read `<board>.<feature>`, elsewhere they are the feature itself.
pub open spec fn unqualified(sb: Board, n: Seq<char>) -> Seq<char> {
    if sb == Board::Network {
        after_dot(n)
    } else {
        n
    }
}

/// Whether a switched-on feature is a motor output (`motor<id>`, or
/// `<board>.motor<id>` in a network session).
pub open spec fn names_motor(sb: Board, n: Seq<char>) -> bool {
    has_prefix(unqualified(sb, n), "motor"@)
}

pub open spec fn motor_filter(sb: Board) -> spec_fn(Seq<char>) -> bool {
    |n: Seq<char>| names_motor(sb, n)
}

/// The feature names of output entries, in order.
pub open spec fn entry_names(e: Seq<(Seq<char>, u64)>) -> Seq<Seq<char>> {
    e.map_values(|x: (Seq<char>, u64)| x.0)
}

proof fn lemma_key_has_no_dot(b: Board)
    ensures
        forall|i: int| 0 <= i < board_key(b).len() ==> board_key(b)[i] != '.',
{
    reveal_strlit("cctl");
    reveal_strlit("svmd");
    reveal_strlit("serial_svmd");
    reveal_strlit("dcmd");
    reveal_strlit("network");
}

proof fn lemma_after_dot_prefix(k: Seq<char>, x: Seq<char>)
    requires
        forall|i: int| 0 <= i < k.len() ==> k[i] != '.',
    ensures
        after_dot(k + "."@ + x) == x,
    decreases k.len(),
{
    reveal_strlit(".");
    let n = k + "."@ + x;
    if k.len() == 0 {
        assert(n[0] == '.');
        assert(n.skip(1) =~= x);
    } else {
        assert(n[0] == k[0]);
        assert(n.skip(1) =~= k.skip(1) + "."@ + x);
        lemma_after_dot_prefix(k.skip(1), x);
    }
}

proof fn lemma_after_dot_none(n: Seq<char>)
    requires
        forall|i: int| 0 <= i < n.len() ==> n[i] != '.',
    ensures
        after_dot(n) == Seq::<char>::empty(),
    decreases n.len(),
{
    if n.len() > 0 {
        assert(n[0] != '.');
        lemma_after_dot_none(n.skip(1));
    }
}

proof fn lemma_unqualified(sb: Board, pb: Board, x: Seq<char>)
    ensures
        unqualified(sb, qualified(sb, pb, x)) == x,
{
    if sb == Board::Network {
        lemma_key_has_no_dot(pb);
        lemma_after_dot_prefix(board_key(pb), x);
    }
}

/// A name that starts with a letter other than `m` names no motor.
proof fn lemma_not_motor(sb: Board, pb: Board, x: Seq<char>)
    requires
        x.len() > 0,
        x[0] != 'm',
    ensures
        !names_motor(sb, qualified(sb, pb, x)),
{
    reveal_strlit("motor");
    lemma_unqualified(sb, pb, x);
    if has_prefix(x, "motor"@) {
        assert(x.take(5)[0] == x[0]);
    }
}

proof fn lemma_motor_ids(sb: Board, pb: Board, outs: Seq<(u8, u64)>)
    ensures
        id_names(sb, pb, "motor"@, outs).filter(motor_filter(sb)) == id_names(
            sb,
            pb,
            "motor"@,
            outs,
        ),
        id_names(sb, pb, "motor"@, outs) == entry_names(expiry_entries(sb, pb, outs)),
    decreases outs.len(),
{
    reveal(Seq::filter);
    if outs.len() > 0 {
        let t = outs.drop_last();
        lemma_motor_ids(sb, pb, t);
        let x = "motor"@ + dec(outs.last().0 as nat);
        lemma_unqualified(sb, pb, x);
        assert(x.take("motor"@.len() as int) =~= "motor"@);
        assert(names_motor(sb, qualified(sb, pb, x)));
        let n = id_names(sb, pb, "motor"@, outs);
        assert(n.drop_last() =~= id_names(sb, pb, "motor"@, t));
        assert(n.last() == qualified(sb, pb, x));
        assert(motor_filter(sb)(n.last()));
        assert(entry_names(expiry_entries(sb, pb, outs)) =~= entry_names(
            expiry_entries(sb, pb, t),
        ).push(qualified(sb, pb, x)));
    }
}

proof fn lemma_read_ids(sb: Board, pb: Board, reads: Seq<(u8, ())>)
    ensures
        id_names(sb, pb, "read"@, reads).filter(motor_filter(sb)) == Seq::<Seq<char>>::empty(),
    decreases reads.len(),
{
    reveal(Seq::filter);
    if reads.len() > 0 {
        lemma_read_ids(sb, pb, reads.drop_last());
        let x = "read"@ + dec(reads.last().0 as nat);
        reveal_strlit("read");
        assert(x[0] == 'r');
        lemma_not_motor(sb, pb, x);
        let n = id_names(sb, pb, "read"@, reads);
        assert(n.drop_last() =~= id_names(sb, pb, "read"@, reads.drop_last()));
        assert(n.last() == qualified(sb, pb, x));
        assert(!motor_filter(sb)(n.last()));
    }
}

proof fn lemma_flags_not_motor(sb: Board, p: PartView)
    ensures
        flag_names(sb, p).filter(motor_filter(sb)) == Seq::<Seq<char>>::empty(),
{
    reveal_strlit("status");
    reveal_strlit("encoder");
    reveal_strlit("inputs");
    lemma_not_motor(sb, p.board, "status"@);
    lemma_not_motor(sb, p.board, "encoder"@);
    lemma_not_motor(sb, p.board, "inputs"@);
    let f = motor_filter(sb);
    let a: Seq<Seq<char>> = if p.status {
        seq![qualified(sb, p.board, "status"@)]
    } else {
        seq![]
    };
    let b: Seq<Seq<char>> = if p.encoder {
        seq![qualified(sb, p.board, "encoder"@)]
    } else {
        seq![]
    };
    let c: Seq<Seq<char>> = if p.inputs {
        seq![qualified(sb, p.board, "inputs"@)]
    } else {
        seq![]
    };
    Seq::filter_distributes_over_add(a, b, f);
    Seq::filter_distributes_over_add(a + b, c, f);
    reveal_with_fuel(Seq::filter, 2);
    assert(a.filter(f) =~= Seq::<Seq<char>>::empty());
    assert(b.filter(f) =~= Seq::<Seq<char>>::empty());
    assert(c.filter(f) =~= Seq::<Seq<char>>::empty());
}

proof fn lemma_parts_motor_names(sb: Board, parts: Seq<PartView>)
    ensures
        parts_switches(sb, parts).filter(motor_filter(sb)) == entry_names(
            parts_expiries(sb, parts),
        ),
    decreases parts.len(),
{
    let f = motor_filter(sb);
    if parts.len() == 0 {
        assert(entry_names(parts_expiries(sb, parts)) =~= Seq::<Seq<char>>::empty());
    } else {
        let t = parts.drop_last();
        let p = parts.last();
        lemma_parts_motor_names(sb, t);
        lemma_motor_ids(sb, p.board, p.outputs);
        lemma_read_ids(sb, p.board, p.reads);
        lemma_flags_not_motor(sb, p);
        let m = id_names(sb, p.board, "motor"@, p.outputs);
        let r = id_names(sb, p.board, "read"@, p.reads);
        Seq::filter_distributes_over_add(m, r, f);
        Seq::filter_distributes_over_add(m + r, flag_names(sb, p), f);
        assert(part_switches(sb, p).filter(f) =~= m);
        Seq::filter_distributes_over_add(parts_switches(sb, t), part_switches(sb, p), f);
        assert(entry_names(parts_expiries(sb, parts)) =~= entry_names(parts_expiries(sb, t))
            + entry_names(expiry_entries(sb, p.board, p.outputs)));
    }
}

/// The motor entries among the switched-on features are exactly the names of
/// the outputs waiting to switch off, in the same order; no status, encoder,
/// inputs, read or communication switch is among them.
pub proof fn lemma_motor_switches_are_expiries(s: SessionView)
    ensures
        switches_spec(s).filter(motor_filter(s.board)) == entry_names(
            parts_expiries(s.board, s.parts),
        ),
{
    let f = motor_filter(s.board);
    lemma_parts_motor_names(s.board, s.parts);
    let c: Seq<Seq<char>> = if s.communication {
        seq!["communication"@]
    } else {
        seq![]
    };
    Seq::filter_distributes_over_add(parts_switches(s.board, s.parts), c, f);
    reveal_with_fuel(Seq::filter, 2);
    if s.communication {
        reveal_strlit("communication");
        reveal_strlit("motor");
        let n = "communication"@;
        if s.board == Board::Network {
            lemma_after_dot_none(n);
        } else {
            if has_prefix(n, "motor"@) {
                assert(n.take(5)[0] == n[0]);
            }
        }
        assert(!names_motor(s.board, n));
    }
    assert(c.filter(f) =~= Seq::<Seq<char>>::empty());
}

proof fn lemma_in_sum(a: Seq<Seq<char>>, b: Seq<Seq<char>>, x: Seq<char>)
    ensures
        a.contains(x) ==> (a + b).contains(x),
        b.contains(x) ==> (a + b).contains(x),
{
    if a.contains(x) {
        let j = choose|j: int| 0 <= j < a.len() && a[j] == x;
        assert((a + b)[j] == x);
    }
    if b.contains(x) {
        let j = choose|j: int| 0 <= j < b.len() && b[j] == x;
        assert((a + b)[a.len() + j] == x);
    }
}

proof fn lemma_expired_has_off(board: Board, outs: Seq<(u8, u64)>, now: u64, k: int, l: Seq<char>)
    requires
        0 <= k < outs.len(),
        outs[k].1 <= now,
        off_lines(board, outs[k].0).contains(l),
    ensures
        expired_lines(board, outs, now).contains(l),
    decreases outs.len(),
{
    let t = outs.drop_last();
    let r = expired_lines(board, t, now);
    if k == outs.len() - 1 {
        lemma_in_sum(r, off_lines(board, outs.last().0), l);
    } else {
        assert(t[k] == outs[k]);
        lemma_expired_has_off(board, t, now, k, l);
        if outs.last().1 <= now {
            lemma_in_sum(r, off_lines(board, outs.last().0), l);
        }
    }
}

proof fn lemma_part_tick_has(p: PartView, communication: bool, now: u64, l: Seq<char>)
    requires
        expired_lines(p.board, p.outputs, now).contains(l),
    ensures
        tick_part_spec(p, communication, now).1.contains(l),
{
    let l1 = expired_lines(p.board, p.outputs, now);
    let j = choose|j: int| 0 <= j < l1.len() && l1[j] == l;
    assert(tick_part_spec(p, communication, now).1[j] == l);
}

proof fn lemma_parts_tick_has(parts: Seq<PartView>, communication: bool, now: u64, i: int, l: Seq<char>)
    requires
        0 <= i < parts.len(),
        tick_part_spec(parts[i], communication, now).1.contains(l),
    ensures
        tick_parts(parts, communication, now).1.contains(l),
    decreases parts.len(),
{
    let t = parts.drop_last();
    let r = tick_parts(t, communication, now).1;
    let last = tick_part_spec(parts.last(), communication, now).1;
    if i < t.len() {
        assert(t[i] == parts[i]);
        lemma_parts_tick_has(t, communication, now, i, l);
    }
    lemma_in_sum(r, last, l);
}

/// Outside the watchdog test, a tick switches off every output that is due:
/// the lines that switch off an output whose switch-off time is not after
/// `now` are among the lines the tick sends.
pub proof fn lemma_tick_switches_off_due(s: SessionView, now: u64, i: int, k: int, l: Seq<char>)
    requires
        s.silent_until is None,
        0 <= i < s.parts.len(),
        0 <= k < s.parts[i].outputs.len(),
        s.parts[i].outputs[k].1 <= now,
        off_lines(s.parts[i].board, s.parts[i].outputs[k].0).contains(l),
    ensures
        tick_spec(s, now).1.contains(l),
{
    let p = s.parts[i];
    lemma_expired_has_off(p.board, p.outputs, now, k, l);
    lemma_part_tick_has(p, s.communication, now, l);
    lemma_parts_tick_has(s.parts, s.communication, now, i, l);
}

/// One thing that happens to a session: an operator command typed at a
/// time, or a periodic tick.
pub enum SessionEvent {
    Command(Seq<char>, nat),
    Tick(u64),
}

/// The session after a series of commands and ticks, in order.
pub open spec fn run(s: SessionView, events: Seq<SessionEvent>) -> SessionView
    decreases events.len(),
{
    if events.len() == 0 {
        s
    } else {
        let r = run(s, events.drop_last());
        match events.last() {
            SessionEvent::Command(line, now) => command_spec(r, line, now).0,
            SessionEvent::Tick(now) => tick_spec(r, now).0,
        }
    }
}

proof fn lemma_run_keeps_boards(s: SessionView, events: Seq<SessionEvent>)
    requires
        s.board == Board::Network,
    ensures
        run(s, events).board == Board::Network,
        part_boards(run(s, events).parts) == part_boards(s.parts),
    decreases events.len(),
{
    if events.len() > 0 {
        lemma_run_keeps_boards(s, events.drop_last());
        let r = run(s, events.drop_last());
        match events.last() {
            SessionEvent::Command(line, now) => lemma_command_keeps_boards(r, line, now),
            SessionEvent::Tick(now) => lemma_ticks_keep_boards(r, now),
        }
    }
}

/// A network session that holds all three boards keeps them through any
/// commands and ticks, so `stop` always sends the same four lines and ends
/// every output, the communication test and the watchdog test; a second
/// `stop` sends the same four lines again.
pub proof fn lemma_network_session_stops_alike(s: SessionView, events: Seq<SessionEvent>)
    requires
        s.board == Board::Network,
        part_boards(s.parts) == members_spec(Board::Network),
    ensures
        stop_spec(run(s, events)).1 == seq![
            "STOP"@,
            "ENABLE 7 0"@,
            can_line(768, 0, 0, 0, 0),
            can_line(784, 3, 0, 0, 0),
        ],
        parts_expiries(Board::Network, stop_spec(run(s, events)).0.parts) == Seq::<
            (Seq<char>, u64),
        >::empty(),
        !stop_spec(run(s, events)).0.communication,
        stop_spec(run(s, events)).0.silent_until is None,
        stop_spec(stop_spec(run(s, events)).0).1 == stop_spec(run(s, events)).1,
{
    let t = run(s, events);
    lemma_run_keeps_boards(s, events);
    lemma_network_stop_lines(t);
    let u = stop_spec(t).0;
    lemma_stop_parts(t.parts);
    assert forall|i: int| 0 <= i < u.parts.len() implies (#[trigger] u.parts[i]).outputs.len()
        == 0 by {
        assert(u.parts[i] == stopped(t.parts[i]));
    }
    lemma_no_expiries(Board::Network, u.parts);
    lemma_network_stop_lines(u);
}

/// Whether an event leaves a running watchdog test alone: a command other
/// than `stop`, or a tick before the test ends.
pub open spec fn quiet_under_watchdog(e: SessionEvent, until: u64) -> bool {
    match e {
        SessionEvent::Command(line, _) => words(line) != seq!["stop"@],
        SessionEvent::Tick(now) => now < until,
    }
}

/// While the watchdog test runs, nothing but `stop` or the tick that ends it
/// changes the session: every other command is refused and every earlier
/// tick sends nothing.
pub proof fn lemma_watchdog_holds(s: SessionView, events: Seq<SessionEvent>)
    requires
        s.silent_until is Some,
        forall|i: int|
            0 <= i < events.len() ==> quiet_under_watchdog(#[trigger] events[i], s.silent_until->0),
    ensures
        run(s, events) == s,
    decreases events.len(),
{
    if events.len() > 0 {
        let t = events.drop_last();
        assert forall|i: int| 0 <= i < t.len() implies quiet_under_watchdog(
            #[trigger] t[i],
            s.silent_until->0,
        ) by {
            assert(t[i] == events[i]);
        }
        lemma_watchdog_holds(s, t);
        assert(quiet_under_watchdog(events[events.len() - 1], s.silent_until->0));
        match events.last() {
            SessionEvent::Command(line, now) => lemma_watchdog_refuses_commands(s, line, now),
            SessionEvent::Tick(now) => lemma_watchdog_tick(s, now),
        }
    }
}

/// The line that switches one output on.
pub open spec fn enable_line(board: Board, id: u8) -> Seq<char> {
    match board {
        Board::Cctl => "ENABLE "@ + dec(slot_mask(id)) + " 1"@,
        Board::Svmd => can_line(768, 2, id, 1, 0),
        Board::SerialSvmd => "SERVO ENABLE "@ + dec(id as nat) + " 1"@,
        _ => can_line(784, 2, 1, 0, 0),
    }
}

/// The text before the operation byte of a gateway line.
pub open spec fn can_head(id: u16) -> Seq<char> {
    "CAN 2 "@ + dec(id as nat) + " 01"@
}

proof fn lemma_can_line_at(id: u16, op: u8, ch: u8, flag: u8, v: i16)
    ensures
        can_line(id, op, ch, flag, v).len() == can_head(id).len() + 14,
        can_line(id, op, ch, flag, v)[can_head(id).len() as int + 1] == hex_digit((op % 16) as nat),
        can_line(id, op, ch, flag, v)[can_head(id).len() as int + 5] == hex_digit((flag % 16) as nat),
{
    reveal_strlit("0000");
    let h = can_head(id);
    let s1 = h + hex2(op);
    let s2 = s1 + hex2(ch);
    let s3 = s2 + hex2(flag);
    let s4 = s3 + hex2(crate::diagnostics::fw_test::be_bytes(v).0);
    let s5 = s4 + hex2(crate::diagnostics::fw_test::be_bytes(v).1);
    assert(can_line(id, op, ch, flag, v) == s5 + "0000"@);
    assert(s1[h.len() as int + 1] == hex2(op)[1]);
    assert(s3[h.len() as int + 5] == hex2(flag)[1]);
    assert((s5 + "0000"@)[h.len() as int + 1] == s1[h.len() as int + 1]);
    assert((s5 + "0000"@)[h.len() as int + 5] == s3[h.len() as int + 5]);
}

proof fn lemma_digits_differ(a: nat, b: nat)
    requires
        a < 10,
        b < 10,
        a != b,
    ensures
        hex_digit(a) != hex_digit(b),
{
}

/// Two gateway lines to one ID that differ in operation or flag differ.
proof fn lemma_can_lines_differ(id: u16, op1: u8, ch1: u8, f1: u8, v1: i16, op2: u8, ch2: u8, f2: u8, v2: i16)
    requires
        op1 < 10 && op2 < 10 && f1 < 10 && f2 < 10,
        op1 != op2 || f1 != f2,
    ensures
        can_line(id, op1, ch1, f1, v1) != can_line(id, op2, ch2, f2, v2),
{
    lemma_can_line_at(id, op1, ch1, f1, v1);
    lemma_can_line_at(id, op2, ch2, f2, v2);
    let k = can_head(id).len() as int;
    if op1 != op2 {
        lemma_digits_differ(op1 as nat, op2 as nat);
        assert(can_line(id, op1, ch1, f1, v1)[k + 1] != can_line(id, op2, ch2, f2, v2)[k + 1]);
    } else {
        lemma_digits_differ(f1 as nat, f2 as nat);
        assert(can_line(id, op1, ch1, f1, v1)[k + 5] != can_line(id, op2, ch2, f2, v2)[k + 5]);
    }
}

/// Lines that differ at one place differ.
proof fn lemma_differ_at(a: Seq<char>, b: Seq<char>, i: int)
    requires
        0 <= i < a.len(),
        0 <= i < b.len(),
        a[i] != b[i],
    ensures
        a != b,
{
}

/// A drive that is taken switches its output on: its lines include the
/// output's enable line and none of the lines that switch that output off;
/// on svmd the value goes first, as the target of that channel.
pub proof fn lemma_drive_switches_on(p: PartView, id: u8, d: Decimal)
    ensures
        drive_spec(p, id, d) matches Ok(l) ==> (l.contains(enable_line(p.board, id)) && forall|x: Seq<
            char,
        >| off_lines(p.board, id).contains(x) ==> !l.contains(x)),
        p.board == Board::Svmd ==> (drive_spec(p, id, d) matches Ok(l) ==> l[0] == can_line(
            768,
            1,
            id,
            0,
            d.int_value() as i16,
        )),
{
    reveal_strlit("HELLO 1");
    reveal_strlit("RUN");
    reveal_strlit("TARGET ");
    reveal_strlit("ENABLE ");
    reveal_strlit(" 1");
    reveal_strlit(" 0");
    reveal_strlit("SERVO TARGET ");
    reveal_strlit("SERVO ENABLE ");
    reveal_strlit(" 100 10");
    if let Ok(l) = drive_spec(p, id, d) {
        let off = off_lines(p.board, id);
        let o = off[0];
        assert(off =~= seq![o]);
        match p.board {
            Board::Cctl => {
                assert(l[2] == enable_line(p.board, id));
                let m = dec(slot_mask(id));
                let on = "ENABLE "@ + m + " 1"@;
                assert(o == "ENABLE "@ + m + " 0"@);
                lemma_differ_at(l[0], o, 0);
                lemma_differ_at(l[1], o, 0);
                lemma_differ_at(l[2], o, on.len() - 1);
                lemma_differ_at(l[3], o, 0);
            },
            Board::Svmd => {
                assert(l[1] == enable_line(p.board, id));
                lemma_can_lines_differ(768, 1, id, 0, d.int_value() as i16, 2, id, 0, 0);
                lemma_can_lines_differ(768, 2, id, 1, 0, 2, id, 0, 0);
            },
            Board::SerialSvmd => {
                assert(l[2] == enable_line(p.board, id));
                let on = "SERVO ENABLE "@ + dec(id as nat) + " 1"@;
                lemma_differ_at(l[0], o, 0);
                lemma_differ_at(l[1], o, 6);
                lemma_differ_at(l[2], o, on.len() - 1);
                lemma_differ_at(l[3], o, 0);
            },
            _ => {
                assert(l[2] == enable_line(p.board, id));
                lemma_can_lines_differ(784, 0, 0, 0, 0, 3, 0, 0, 0);
                lemma_can_lines_differ(784, 4, 0, 0, d.int_value() as i16, 3, 0, 0, 0);
                lemma_can_lines_differ(784, 2, 1, 0, 0, 3, 0, 0, 0);
            },
        }
        assert(forall|x: Seq<char>| off.contains(x) ==> x == o);
        assert(!l.contains(o));
    }
}

} // verus!
