use vstd::prelude::*;

use crate::decimal::{
    all_digits, digits_of, lemma_digits_of_shape, lemma_parse_digits_of, parse_unsigned, parse_usize,
    push_decimal,
};
use crate::chat_session::ChatRecord;
use crate::outcome::{append_bytes, bytes_to_vec, DecodeError};

verus! {

/// `JOIN ` in ASCII.
pub open spec fn join_keyword() -> Seq<u8> {
    seq![74u8, 79u8, 73u8, 78u8, 32u8]
}

/// `MSG ` in ASCII.
pub open spec fn msg_keyword() -> Seq<u8> {
    seq![77u8, 83u8, 71u8, 32u8]
}

/// `: hello ` in ASCII.
pub open spec fn hello_infix() -> Seq<u8> {
    seq![58u8, 32u8, 104u8, 101u8, 108u8, 108u8, 111u8, 32u8]
}

/// `room-` in ASCII.
pub open spec fn room_prefix() -> Seq<u8> {
    seq![114u8, 111u8, 111u8, 109u8, 45u8]
}

pub open spec fn room_name_spec(x: nat) -> Seq<u8> {
    room_prefix() + digits_of(x)
}

/// `JOIN <room>`
pub open spec fn join_frame_spec(room: Seq<u8>) -> Seq<u8> {
    join_keyword() + room
}

/// `MSG <room> <index>: hello <room>`
pub open spec fn message_frame_spec(room: Seq<u8>, index: nat) -> Seq<u8> {
    msg_keyword() + room + seq![32u8] + digits_of(index) + hello_infix() + room
}

/// `i` is the position of the first `b` in `s`.
pub open spec fn is_first(s: Seq<u8>, b: u8, i: int) -> bool {
    &&& 0 <= i < s.len()
    &&& s[i] == b
    &&& forall|j: int| 0 <= j < i ==> s[j] != b
}

/// `i` is the position of the last `b` in `s`.
pub open spec fn is_last(s: Seq<u8>, b: u8, i: int) -> bool {
    &&& 0 <= i < s.len()
    &&& s[i] == b
    &&& forall|j: int| i < j < s.len() ==> s[j] != b
}

/// The part of `s` after its last space, or all of `s` when it has none.
pub open spec fn last_word(s: Seq<u8>) -> Seq<u8> {
    if exists|k: int| is_last(s, 32u8, k) {
        let k = choose|k: int| is_last(s, 32u8, k);
        s.subrange(k + 1, s.len() as int)
    } else {
        s
    }
}

/// The correlation key of a chat frame: the number written as the last word
/// before the frame's first colon. `None` when the frame has no colon or that
/// word is not a number that fits in `usize`.
pub open spec fn sender_spec(frame: Seq<u8>) -> Option<nat> {
    if exists|c: int| is_first(frame, 58u8, c) {
        let c = choose|c: int| is_first(frame, 58u8, c);
        parse_unsigned(last_word(frame.subrange(0, c)))
    } else {
        None
    }
}

proof fn lemma_first_unique(s: Seq<u8>, b: u8, i: int, j: int)
    requires
        is_first(s, b, i),
        is_first(s, b, j),
    ensures
        i == j,
{
}

proof fn lemma_last_unique(s: Seq<u8>, b: u8, i: int, j: int)
    requires
        is_last(s, b, i),
        is_last(s, b, j),
    ensures
        i == j,
{
}

/// A message frame names its sender: decoding the frame that session `index`
/// sends to a room whose name holds no colon gives `index` back, so each
/// session recognises its own echoes among the room's traffic.
pub proof fn lemma_sender_of_message_frame(room: Seq<u8>, index: nat)
    requires
        index <= usize::MAX,
        forall|i: int| 0 <= i < room.len() ==> room[i] != 58u8,
    ensures
        sender_spec(message_frame_spec(room, index)) == Some(index),
{
    let f = message_frame_spec(room, index);
    let d = digits_of(index);
    lemma_digits_of_shape(index);
    lemma_parse_digits_of(index);
    let sp: int = 4 + room.len() as int;
    let c: int = sp + 1 + d.len();
    assert(forall|i: int| 0 <= i < d.len() ==> f[sp + 1 + i] == d[i]);
    assert(forall|i: int| 0 <= i < room.len() ==> f[4 + i] == room[i]);
    assert(f[c] == 58u8);
    assert forall|j: int| 0 <= j < c implies f[j] != 58u8 by {
        if sp + 1 <= j {
            assert(f[j] == d[j - sp - 1]);
        }
    }
    assert(is_first(f, 58u8, c));
    let cc = choose|i: int| is_first(f, 58u8, i);
    lemma_first_unique(f, 58u8, c, cc);
    let head = f.subrange(0, c);
    assert forall|j: int| sp < j < head.len() implies head[j] != 32u8 by {
        assert(head[j] == d[j - sp - 1]);
    }
    assert(is_last(head, 32u8, sp));
    let kk = choose|i: int| is_last(head, 32u8, i);
    lemma_last_unique(head, 32u8, sp, kk);
    assert(last_word(head) =~= d);
}

/// The name of the room with number `x`: `room-<x>`.
pub fn room_name(x: usize) -> (r: Vec<u8>)
    ensures
        r@ == room_name_spec(x as nat),
{
    let mut r: Vec<u8> = Vec::new();
    r.push(114u8);
    r.push(111u8);
    r.push(111u8);
    r.push(109u8);
    r.push(45u8);
    push_decimal(&mut r, x);
    assert(r@ =~= room_name_spec(x as nat));
    r
}

/// The frame that joins `room`.
pub fn join_frame(room: &[u8]) -> (r: Vec<u8>)
    ensures
        r@ == join_frame_spec(room@),
{
    let mut r: Vec<u8> = Vec::new();
    r.push(74u8);
    r.push(79u8);
    r.push(73u8);
    r.push(78u8);
    r.push(32u8);
    append_bytes(&mut r, room);
    assert(r@ =~= join_frame_spec(room@));
    r
}

/// The frame by which the session with ordinal `index` says hello in `room`.
pub fn message_frame(room: &[u8], index: usize) -> (r: Vec<u8>)
    ensures
        r@ == message_frame_spec(room@, index as nat),
{
    let mut r: Vec<u8> = Vec::new();
    r.push(77u8);
    r.push(83u8);
    r.push(71u8);
    r.push(32u8);
    append_bytes(&mut r, room);
    r.push(32u8);
    push_decimal(&mut r, index);
    r.push(58u8);
    r.push(32u8);
    r.push(104u8);
    r.push(101u8);
    r.push(108u8);
    r.push(108u8);
    r.push(111u8);
    r.push(32u8);
    append_bytes(&mut r, room);
    assert(r@ =~= message_frame_spec(room@, index as nat));
    r
}

/// Reads the correlation key out of a received chat frame.
pub fn sender_of(frame: &[u8]) -> (r: Result<usize, DecodeError>)
    ensures
        r is Err <==> sender_spec(frame@) is None,
        r matches Ok(v) ==> sender_spec(frame@) == Some(v as nat),
        r matches Err(e) ==> e.payload@ == frame@,
{
    let mut c: usize = 0;
    while c < frame.len() && frame[c] != 58u8
        invariant
            c <= frame@.len(),
            forall|j: int| 0 <= j < c ==> frame@[j] != 58u8,
        decreases frame.len() - c,
    {
        c = c + 1;
    }
    if c == frame.len() {
        assert(!exists|i: int| is_first(frame@, 58u8, i));
        return Err(DecodeError { payload: bytes_to_vec(frame) });
    }
    proof {
        assert(is_first(frame@, 58u8, c as int));
        let ch = choose|i: int| is_first(frame@, 58u8, i);
        lemma_first_unique(frame@, 58u8, c as int, ch);
    }
    let ghost head = frame@.subrange(0, c as int);
    let mut k: usize = c;
    while k > 0 && frame[k - 1] != 32u8
        invariant
            k <= c < frame@.len(),
            head == frame@.subrange(0, c as int),
            forall|j: int| k <= j < c ==> frame@[j] != 32u8,
        decreases k,
    {
        k = k - 1;
    }
    proof {
        if k > 0 {
            assert(is_last(head, 32u8, k - 1));
            let kh = choose|i: int| is_last(head, 32u8, i);
            lemma_last_unique(head, 32u8, k - 1, kh);
            assert(last_word(head) =~= frame@.subrange(k as int, c as int));
        } else {
            assert(!exists|i: int| is_last(head, 32u8, i));
            assert(last_word(head) =~= frame@.subrange(k as int, c as int));
        }
    }
    match parse_usize(&frame[k..c]) {
        Some(v) => Ok(v),
        None => Err(DecodeError { payload: bytes_to_vec(frame) }),
    }
}

/// `time_taken, count` and a line feed, in ASCII.
pub open spec fn csv_header() -> Seq<u8> {
    seq![
        116u8, 105u8, 109u8, 101u8, 95u8, 116u8, 97u8, 107u8, 101u8, 110u8, 44u8, 32u8, 99u8,
        111u8, 117u8, 110u8, 116u8, 10u8,
    ]
}

/// `<elapsed>, <matched>` and a line feed.
pub open spec fn csv_row(r: ChatRecord) -> Seq<u8> {
    digits_of(r.elapsed_ms as nat) + seq![44u8, 32u8] + digits_of(r.matched as nat) + seq![10u8]
}

pub open spec fn csv_rows(s: Seq<ChatRecord>) -> Seq<u8>
    decreases s.len(),
{
    if s.len() == 0 {
        Seq::empty()
    } else {
        csv_rows(s.drop_last()) + csv_row(s.last())
    }
}

/// The report of a chat run as CSV: a header, then one row per successful
/// session.
pub fn report_csv(records: &Vec<ChatRecord>) -> (r: Vec<u8>)
    ensures
        r@ == csv_header() + csv_rows(records@),
{
    let mut r: Vec<u8> = Vec::new();
    r.push(116u8);
    r.push(105u8);
    r.push(109u8);
    r.push(101u8);
    r.push(95u8);
    r.push(116u8);
    r.push(97u8);
    r.push(107u8);
    r.push(101u8);
    r.push(110u8);
    r.push(44u8);
    r.push(32u8);
    r.push(99u8);
    r.push(111u8);
    r.push(117u8);
    r.push(110u8);
    r.push(116u8);
    r.push(10u8);
    assert(r@ =~= csv_header() + csv_rows(records@.subrange(0, 0)));
    let mut i: usize = 0;
    while i < records.len()
        invariant
            i <= records@.len(),
            r@ == csv_header() + csv_rows(records@.subrange(0, i as int)),
        decreases records.len() - i,
    {
        let rec = records[i];
        let ghost before = r@;
        push_decimal(&mut r, rec.elapsed_ms);
        r.push(44u8);
        r.push(32u8);
        push_decimal(&mut r, rec.matched);
        r.push(10u8);
        assert(records@.subrange(0, i + 1).drop_last() =~= records@.subrange(0, i as int));
        assert(r@ =~= before + csv_row(rec));
        i = i + 1;
    }
    assert(records@.subrange(0, records@.len() as int) =~= records@);
    r
}

} // verus!
