//! The decisions of a firmware test session around the serial link: which
//! board must answer the capability request, what is sent before the first
//! command, which boards behind cctl are probed and how their answers end the
//! preparation. The caller owns the link: it sends what these functions return
//! and hands back what came in.
use vstd::prelude::*;
use vstd::string::*;
use crate::diagnostics::fw_test::{
    Board, Session, can, can_line, has_prefix, members_spec, parts_expiries, stop_spec,
};
use crate::text::{
    char_pos, chars_eq, chars_of, dec, find_char, head, parse_u64, parse_u64_spec, parse_u8,
    parse_u8_spec, push_dec, split_words, starts_with, string_of, tail, views, words,
};

verus! {

/// Why a session could not be prepared.
#[derive(Clone, Copy, Debug, PartialEq, Eq, Structural)]
pub enum PrepareError {
    /// The device that answered is not the one the target needs.
    Mismatch,
    /// cctl reports no gateway on its second CAN bus.
    NoGateway,
    /// No capability report came in.
    NoReport,
    /// A single board behind cctl did not answer its probe.
    NoReply,
}

/// The text of each refusal.
pub open spec fn prepare_error_message(e: PrepareError) -> Seq<char> {
    match e {
        PrepareError::Mismatch => "接続先の能力が不一致"@,
        PrepareError::NoGateway => "FDCAN2ゲートウェイがありません"@,
        PrepareError::NoReport => "能力通知がありません。接続とボーレートを確認してください"@,
        PrepareError::NoReply => "CAN先の基板応答がありません。電源・CAN配線・終端抵抗を確認してください"@,
    }
}

impl PrepareError {
    /// The text shown to the operator.
    pub fn message(&self) -> (text: String)
        ensures
            text@ == prepare_error_message(*self),
    {
        match self {
            PrepareError::Mismatch => String::from_str("接続先の能力が不一致"),
            PrepareError::NoGateway => String::from_str("FDCAN2ゲートウェイがありません"),
            PrepareError::NoReport => String::from_str(
                "能力通知がありません。接続とボーレートを確認してください",
            ),
            PrepareError::NoReply => String::from_str(
                "CAN先の基板応答がありません。電源・CAN配線・終端抵抗を確認してください",
            ),
        }
    }
}

/// The board name that the device on the link must report.
pub open spec fn expected_device_spec(board: Board) -> Seq<char> {
    if board == Board::SerialSvmd {
        "serial_svmd"@
    } else {
        "cctl"@
    }
}

/// Whether the target is reached through cctl's CAN gateway on bus 2.
pub open spec fn needs_gateway(board: Board) -> bool {
    board == Board::Svmd || board == Board::Dcmd || board == Board::Network
}

/// The outcome of checking a capability report `(protocol, board, CAN buses)`.
pub open spec fn device_check_spec(board: Board, protocol: u64, name: Seq<char>, buses: Seq<u8>) -> Result<
    (),
    PrepareError,
> {
    if protocol != 1 || name != expected_device_spec(board) {
        Err(PrepareError::Mismatch)
    } else if needs_gateway(board) && !buses.contains(2u8) {
        Err(PrepareError::NoGateway)
    } else {
        Ok(())
    }
}

/// The board name the device must report for `board`.
pub fn expected_device(board: Board) -> (name: &'static str)
    ensures
        name@ == expected_device_spec(board),
{
    if matches!(board, Board::SerialSvmd) {
        "serial_svmd"
    } else {
        "cctl"
    }
}

/// Checks the capability report of the device on the link against the target:
/// protocol 1, the expected board, and the CAN gateway where the target needs it.
pub fn check_device(board: Board, protocol: u64, name: &str, buses: &[u8]) -> (r: Result<
    (),
    PrepareError,
>)
    ensures
        r == device_check_spec(board, protocol, name@, buses@),
{
    let expected = expected_device(board);
    let name_chars = chars_of(name);
    let same = chars_eq(name_chars.as_slice(), expected);
    if protocol != 1 || !same {
        return Err(PrepareError::Mismatch);
    }
    if matches!(board, Board::Svmd | Board::Dcmd | Board::Network) {
        let mut found = false;
        let mut i: usize = 0;
        while i < buses.len()
            invariant
                i <= buses@.len(),
                found <==> exists|j: int| 0 <= j < i && buses@[j] == 2u8,
            decreases buses@.len() - i,
        {
            if buses[i] == 2 {
                found = true;
            }
            i = i + 1;
        }
        if !found {
            return Err(PrepareError::NoGateway);
        }
    }
    Ok(())
}

/// Whether a board behind cctl is probed before the session starts.
pub open spec fn probed(b: Board) -> bool {
    b == Board::Svmd || b == Board::Dcmd
}

/// The member boards of `board` that are probed, in order.
pub open spec fn probe_targets(board: Board) -> Seq<Board> {
    members_spec(board).filter(|b: Board| probed(b))
}

/// Lines that halt cctl's own outputs first when the target is reached through it.
pub open spec fn halt_lines(board: Board) -> Seq<Seq<char>> {
    if board != Board::SerialSvmd && board != Board::Cctl {
        seq!["STOP"@, "ENABLE 7 0"@]
    } else {
        seq![]
    }
}

/// What to send before the session starts, and which boards to probe.
pub struct Preparation {
    /// Lines that stop every output, in the order they are sent.
    pub lines: Vec<String>,
    /// The boards behind cctl to probe, in order.
    pub probes: Vec<Board>,
}

/// Stops every output of the session and plans the preparation of `board`: the
/// lines to send (cctl's outputs first where the target sits behind it, then
/// the session's own stop lines) and the boards to probe.
pub fn prepare(board: Board, session: &mut Session) -> (p: Preparation)
    requires
        old(session).wf(),
    ensures
        final(session).wf(),
        final(session)@ == stop_spec(old(session)@).0,
        views(p.lines@) == halt_lines(board) + stop_spec(old(session)@).1,
        p.probes@ == probe_targets(board),
{
    let mut lines: Vec<String> = Vec::new();
    if !matches!(board, Board::SerialSvmd) && !matches!(board, Board::Cctl) {
        lines.push(String::from_str("STOP"));
        lines.push(String::from_str("ENABLE 7 0"));
        proof {
            reveal_strlit("STOP");
            reveal_strlit("ENABLE 7 0");
        }
    }
    assert(views(lines@) =~= halt_lines(board));
    let stop = session.stop();
    let ghost first = lines@;
    let mut i: usize = 0;
    while i < stop.len()
        invariant
            i <= stop@.len(),
            lines@ == first + stop@.take(i as int),
        decreases stop@.len() - i,
    {
        lines.push(stop[i].clone());
        i = i + 1;
        assert(lines@ =~= first + stop@.take(i as int));
    }
    assert(stop@.take(stop@.len() as int) == stop@);
    assert(views(lines@) =~= views(first) + views(stop@));
    let members = board.members();
    let mut probes: Vec<Board> = Vec::new();
    let mut k: usize = 0;
    while k < members.len()
        invariant
            members@ == members_spec(board),
            k <= members@.len(),
            probes@ == members@.take(k as int).filter(|b: Board| probed(b)),
        decreases members@.len() - k,
    {
        let b = members[k];
        proof {
            assert(members@.take(k + 1) == members@.take(k as int).push(b));
            members@.take(k as int).lemma_filter_push(b, |b: Board| probed(b));
        }
        if matches!(b, Board::Svmd | Board::Dcmd) {
            probes.push(b);
        }
        k = k + 1;
    }
    assert(members@.take(members@.len() as int) == members@);
    Preparation { lines, probes }
}

/// The CAN identifier that asks `target` for its state.
pub open spec fn probe_id(target: Board) -> u16 {
    if target == Board::Svmd {
        768
    } else {
        784
    }
}

/// The probe request: a state request to svmd (operation 3), a plain query to DCMD.
pub open spec fn probe_request_spec(target: Board) -> Seq<char> {
    can_line(probe_id(target), if target == Board::Svmd { 3 } else { 0 }, 0, 0, 0)
}

/// The start of the answer to a probe: a version-1 reply with status 0 from the
/// identifier after the request's.
pub open spec fn probe_reply_spec(target: Board) -> Seq<char> {
    "CAN_RX bus=2 id="@ + dec((probe_id(target) + 1) as nat) + " data=0100"@
}

/// The line that probes `target`.
pub fn probe_request(target: Board) -> (line: String)
    ensures
        line@ == probe_request_spec(target),
{
    if matches!(target, Board::Svmd) {
        can(768, 3, 0, 0, 0)
    } else {
        can(784, 0, 0, 0, 0)
    }
}

/// The prefix of a line that answers the probe of `target`.
pub fn probe_reply(target: Board) -> (prefix: String)
    ensures
        prefix@ == probe_reply_spec(target),
{
    let id: u16 = if matches!(target, Board::Svmd) {
        768
    } else {
        784
    };
    let mut s = String::from_str("CAN_RX bus=2 id=");
    push_dec(&mut s, (id + 1) as u64);
    s.append(" data=0100");
    s
}

/// Whether some received line starts with `prefix`.
pub fn answered(lines: &[String], prefix: &str) -> (b: bool)
    ensures
        b == exists|i: int| 0 <= i < lines@.len() && has_prefix(#[trigger] lines@[i]@, prefix@),
{
    let mut i: usize = 0;
    while i < lines.len()
        invariant
            i <= lines@.len(),
            forall|j: int| 0 <= j < i ==> !has_prefix(#[trigger] lines@[j]@, prefix@),
        decreases lines@.len() - i,
    {
        let chars = chars_of(lines[i].as_str());
        if starts_with(chars.as_slice(), prefix) {
            return true;
        }
        i = i + 1;
    }
    false
}

/// Records the answer to the probe of `target`: a board that answered joins
/// `reachable`. A single target that stays silent ends the preparation with an
/// error; a network check goes on without it, since its point is to learn how
/// much of the network is visible.
pub fn record_probe(board: Board, target: Board, reached: bool, reachable: &mut Vec<Board>) -> (r:
    Result<(), PrepareError>)
    ensures
        final(reachable)@ == if reached {
            old(reachable)@.push(target)
        } else {
            old(reachable)@
        },
        r == if !reached && board != Board::Network {
            Err::<(), PrepareError>(PrepareError::NoReply)
        } else {
            Ok(())
        },
{
    if reached {
        reachable.push(target);
        Ok(())
    } else if !matches!(board, Board::Network) {
        Err(PrepareError::NoReply)
    } else {
        Ok(())
    }
}

/// The feature names of the outputs that are on, in the order of `output_expiries`.
pub open spec fn output_ids_spec(session: Session) -> Seq<Seq<char>> {
    parts_expiries(session@.board, session@.parts).map_values(|e: (Seq<char>, u64)| e.0)
}

/// The feature names of the outputs that are on.
pub fn output_ids(session: &Session) -> (ids: Vec<String>)
    ensures
        views(ids@) == output_ids_spec(*session),
{
    let expiries = session.output_expiries();
    let ghost e = parts_expiries(session@.board, session@.parts);
    assert(expiries@.len() == e.len()) by {
        assert(crate::diagnostics::fw_test::expiry_views(expiries@).len() == expiries@.len());
    }
    let mut ids: Vec<String> = Vec::new();
    let mut i: usize = 0;
    while i < expiries.len()
        invariant
            i <= expiries@.len(),
            crate::diagnostics::fw_test::expiry_views(expiries@) == e,
            views(ids@) == e.take(i as int).map_values(|x: (Seq<char>, u64)| x.0),
        decreases expiries@.len() - i,
    {
        assert(crate::diagnostics::fw_test::expiry_views(expiries@)[i as int] == (
            expiries@[i as int].0@,
            expiries@[i as int].1,
        ));
        let ghost before = ids@;
        let name = expiries[i].0.clone();
        ids.push(name);
        assert(views(ids@) =~= views(before).push(e[i as int].0));
        assert(e.take(i + 1) == e.take(i as int).push(e[i as int]));
        i = i + 1;
        assert(views(ids@) =~= e.take(i as int).map_values(|x: (Seq<char>, u64)| x.0));
    }
    assert(e.take(e.len() as int) == e);
    ids
}

/// One piece of a comma-separated list as a bus number, if it reads as one.
pub open spec fn bus_of(piece: Seq<char>) -> Seq<u8> {
    match parse_u8_spec(piece) {
        Some(b) => seq![b],
        None => seq![],
    }
}

/// Reading a comma-separated list from the left: the buses of the finished
/// pieces, and the piece being read.
pub open spec fn bus_scan(s: Seq<char>) -> (Seq<u8>, Seq<char>)
    decreases s.len(),
{
    if s.len() == 0 {
        (seq![], seq![])
    } else {
        let r = bus_scan(s.drop_last());
        if s.last() == ',' {
            (r.0 + bus_of(r.1), seq![])
        } else {
            (r.0, r.1.push(s.last()))
        }
    }
}

/// The pieces of a comma-separated list that read as bus numbers, in order
/// (the others are skipped).
pub open spec fn bus_list(s: Seq<char>) -> Seq<u8> {
    bus_scan(s).0 + bus_of(bus_scan(s).1)
}

/// What a capability report has told so far: protocol, board and buses.
pub type DeviceFields = (Option<u64>, Option<Seq<char>>, Seq<u8>);

/// The fields after reading `key=value` words from the left; a word without
/// `=` spoils the report; a later value of a key replaces an earlier one, and
/// unknown keys are skipped.
pub open spec fn device_scan(ws: Seq<Seq<char>>) -> Option<DeviceFields>
    decreases ws.len(),
{
    if ws.len() == 0 {
        Some((None, None, seq![]))
    } else {
        match device_scan(ws.drop_last()) {
            None => None,
            Some(f) => {
                let w = ws.last();
                let k = char_pos(w, '=');
                if k < 0 {
                    None
                } else {
                    let key = w.take(k);
                    let v = w.skip(k + 1);
                    if key == "protocol"@ {
                        Some((parse_u64_spec(v), f.1, f.2))
                    } else if key == "board"@ {
                        Some((f.0, Some(v), f.2))
                    } else if key == "can"@ {
                        Some((f.0, f.1, bus_list(v)))
                    } else {
                        Some(f)
                    }
                }
            },
        }
    }
}

/// The fields of a capability report `DEVICE protocol=<n> board=<name>
/// can=<b>,<b>`: protocol, board name and CAN buses, when it is one and
/// names both the protocol and the board.
pub open spec fn capability_spec(line: Seq<char>) -> Option<(u64, Seq<char>, Seq<u8>)> {
    let ws = words(line);
    if ws.len() == 0 || ws[0] != "DEVICE"@ {
        None
    } else {
        match device_scan(ws.drop_first()) {
            Some((Some(p), Some(b), bs)) => Some((p, b, bs)),
            _ => None,
        }
    }
}

fn bus_of_exec(piece: &[char]) -> (r: Vec<u8>)
    ensures
        r@ == bus_of(piece@),
{
    let mut r: Vec<u8> = Vec::new();
    match parse_u8(piece) {
        Some(b) => r.push(b),
        None => {},
    }
    assert(r@ =~= bus_of(piece@));
    r
}

/// The bus numbers of a comma-separated list.
pub fn bus_list_exec(v: &[char]) -> (r: Vec<u8>)
    ensures
        r@ == bus_list(v@),
{
    let mut done: Vec<u8> = Vec::new();
    let mut piece: Vec<char> = Vec::new();
    let mut i: usize = 0;
    while i < v.len()
        invariant
            i <= v@.len(),
            (done@, piece@) == bus_scan(v@.take(i as int)),
        decreases v@.len() - i,
    {
        assert(v@.take(i as int + 1).drop_last() =~= v@.take(i as int));
        assert(v@.take(i as int + 1).last() == v@[i as int]);
        if v[i] == ',' {
            let mut b = bus_of_exec(piece.as_slice());
            done.append(&mut b);
            piece = Vec::new();
            assert(piece@ =~= seq![]);
        } else {
            piece.push(v[i]);
        }
        i = i + 1;
    }
    assert(v@.take(v@.len() as int) =~= v@);
    let mut b = bus_of_exec(piece.as_slice());
    done.append(&mut b);
    done
}

/// The fields of a capability report, when the line is one (see `capability_spec`).
pub fn capability(line: &str) -> (r: Option<(u64, String, Vec<u8>)>)
    ensures
        match (r, capability_spec(line@)) {
            (Some((p, b, bs)), Some((q, c, cs))) => p == q && b@ == c && bs@ == cs,
            (None, None) => true,
            _ => false,
        },
{
    let chars = chars_of(line);
    let ws = split_words(chars.as_slice());
    let ghost t = words(line@);
    proof {
        assert forall|j: int| 0 <= j < ws@.len() implies #[trigger] ws@[j]@ == t[j] by {
            assert(ws@.map_values(|x: Vec<char>| x@)[j] == ws@[j]@);
        }
        reveal_strlit("DEVICE");
        reveal_strlit("protocol");
        reveal_strlit("board");
        reveal_strlit("can");
    }
    if ws.len() == 0 || !chars_eq(ws[0].as_slice(), "DEVICE") {
        return None;
    }
    assert(ws@[0]@ == t[0]);
    assert(t.drop_first().take(0) =~= Seq::<Seq<char>>::empty());
    let mut protocol: Option<u64> = None;
    let mut board: Option<Vec<char>> = None;
    let mut buses: Vec<u8> = Vec::new();
    let mut i: usize = 1;
    while i < ws.len()
        invariant
            t == words(line@),
            t.len() > 0,
            t[0] == "DEVICE"@,
            1 <= i <= ws@.len(),
            ws@.len() == t.len(),
            forall|j: int| 0 <= j < ws@.len() ==> #[trigger] ws@[j]@ == t[j],
            device_scan(t.drop_first().take(i as int - 1)) == Some::<DeviceFields>(
                (
                    protocol,
                    match board {
                        Some(b) => Some(b@),
                        None => None::<Seq<char>>,
                    },
                    buses@,
                ),
            ),
        decreases ws@.len() - i,
    {
        let w = &ws[i];
        let ghost pre = t.drop_first().take(i as int - 1);
        assert(t.drop_first().take(i as int).drop_last() =~= pre);
        assert(t.drop_first().take(i as int).last() == w@);
        let k = match find_char(w.as_slice(), '=') {
            None => {
                assert(device_scan(t.drop_first()) is None) by {
                    lemma_scan_spoiled(t.drop_first(), i as int);
                }
                return None;
            },
            Some(k) => k,
        };
        assert(k < w.len());
        let key = head(w.as_slice(), k);
        let value = tail(w.as_slice(), k + 1);
        if chars_eq(key.as_slice(), "protocol") {
            protocol = parse_u64(value.as_slice());
        } else if chars_eq(key.as_slice(), "board") {
            board = Some(value);
        } else if chars_eq(key.as_slice(), "can") {
            buses = bus_list_exec(value.as_slice());
        }
        i = i + 1;
    }
    assert(t.drop_first().take(i as int - 1) =~= t.drop_first());
    match (protocol, board) {
        (Some(p), Some(b)) => Some((p, string_of(b.as_slice()), buses)),
        _ => None,
    }
}

proof fn lemma_scan_spoiled(ws: Seq<Seq<char>>, k: int)
    requires
        0 <= k <= ws.len(),
        device_scan(ws.take(k)) is None,
    ensures
        device_scan(ws) is None,
    decreases ws.len() - k,
{
    if k < ws.len() {
        assert(ws.take(k + 1).drop_last() =~= ws.take(k));
        lemma_scan_spoiled(ws, k + 1);
    } else {
        assert(ws.take(k) =~= ws);
    }
}

} // verus!
