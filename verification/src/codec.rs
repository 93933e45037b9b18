//! The byte encoding of the records that the status store keeps.
//!
//! A record is a version byte, a byte that tells the kind of record, and
//! the fields of the record in a fixed order. A later version may only add
//! fields at the end: a reader takes the fields it knows and ignores what
//! follows, and a status tag it does not know reads as `Unknown`.
//!
//! Integers are little-endian; a signed integer is stored shifted by 2^63;
//! a string is its length in bytes, as a `u64`, then its UTF-8 bytes.

use vstd::bytes::{
    lemma_auto_spec_u32_to_from_le_bytes, lemma_auto_spec_u64_to_from_le_bytes,
    spec_u32_from_le_bytes, spec_u32_to_le_bytes, spec_u64_from_le_bytes, spec_u64_to_le_bytes,
    u32_from_le_bytes, u32_to_le_bytes, u64_from_le_bytes, u64_to_le_bytes,
};
use vstd::prelude::*;
use vstd::slice::{slice_subrange, slice_to_vec};
use vstd::string::StrSliceExecFns;
use vstd::utf8::{
    decode_utf8, encode_utf8, encode_utf8_decode_utf8, encode_utf8_valid_utf8, valid_utf8,
};

use crate::msg::{MirrorStatus, MirrorStatusView, WorkerStatus, WorkerStatusView};
use crate::status::SyncStatus;
use crate::text::string_from_utf8;
use crate::time::Timestamp;

verus! {

/// The version that this code writes.
pub const FORMAT_VERSION: u8 = 1;

/// The kind byte of a worker's record.
pub const KIND_WORKER: u8 = 1;

/// The kind byte of a mirror's status record.
pub const KIND_MIRROR: u8 = 2;

/// The two bytes that a record of a kind starts with.
pub open spec fn header(kind: u8) -> Seq<u8> {
    seq![FORMAT_VERSION, kind]
}

/// The shift that maps the signed 64-bit integers onto the unsigned ones.
pub open spec fn sign_shift() -> int {
    0x8000_0000_0000_0000
}

/// The tag of a status.
pub open spec fn status_tag(status: SyncStatus) -> u8 {
    match status {
        SyncStatus::NeverSynced => 0,
        SyncStatus::Failed => 1,
        SyncStatus::Success => 2,
        SyncStatus::Syncing => 3,
        SyncStatus::PreSyncing => 4,
        SyncStatus::Paused => 5,
        SyncStatus::Disabled => 6,
        SyncStatus::Unknown => 7,
    }
}

/// The status of a tag: every tag without a status of its own is `Unknown`.
pub open spec fn status_of_tag(tag: u8) -> SyncStatus {
    if tag == 0 {
        SyncStatus::NeverSynced
    } else if tag == 1 {
        SyncStatus::Failed
    } else if tag == 2 {
        SyncStatus::Success
    } else if tag == 3 {
        SyncStatus::Syncing
    } else if tag == 4 {
        SyncStatus::PreSyncing
    } else if tag == 5 {
        SyncStatus::Paused
    } else if tag == 6 {
        SyncStatus::Disabled
    } else {
        SyncStatus::Unknown
    }
}

// ---------------------------------------------------------------- encoding

pub open spec fn enc_u64(x: u64) -> Seq<u8> {
    spec_u64_to_le_bytes(x)
}

pub open spec fn enc_u32(x: u32) -> Seq<u8> {
    spec_u32_to_le_bytes(x)
}

pub open spec fn enc_i64(x: i64) -> Seq<u8> {
    enc_u64((x + sign_shift()) as u64)
}

pub open spec fn enc_str(text: Seq<char>) -> Seq<u8> {
    enc_u64(encode_utf8(text).len() as u64) + encode_utf8(text)
}

pub open spec fn enc_time(t: Timestamp) -> Seq<u8> {
    enc_i64(t.secs) + enc_u32(t.nanos)
}

pub open spec fn enc_status(status: SyncStatus) -> Seq<u8> {
    seq![status_tag(status)]
}

pub open spec fn enc_bool(b: bool) -> Seq<u8> {
    seq![if b { 1u8 } else { 0u8 }]
}

/// The bytes of a mirror's record, followed by `tail`.
pub open spec fn enc_mirror_status_then(m: MirrorStatusView, tail: Seq<u8>) -> Seq<u8> {
    header(KIND_MIRROR) + (enc_str(m.name) + (enc_str(m.worker) + (enc_str(m.upstream) + (enc_str(
        m.size,
    ) + (enc_str(m.error_msg) + (enc_time(m.last_update) + (enc_time(m.last_started) + (enc_time(
        m.lastt_ended,
    ) + (enc_time(m.next_scheduled) + (enc_status(m.status) + (enc_bool(m.is_master)
        + tail)))))))))))
}

/// The bytes of a mirror's record.
pub open spec fn enc_mirror_status(m: MirrorStatusView) -> Seq<u8> {
    enc_mirror_status_then(m, Seq::empty())
}

/// The bytes of a worker's record, followed by `tail`.
pub open spec fn enc_worker_status_then(w: WorkerStatusView, tail: Seq<u8>) -> Seq<u8> {
    header(KIND_WORKER) + (enc_str(w.id) + (enc_str(w.url) + (enc_str(w.token) + (enc_time(
        w.last_online,
    ) + (enc_time(w.last_register) + tail)))))
}

/// The bytes of a worker's record.
pub open spec fn enc_worker_status(w: WorkerStatusView) -> Seq<u8> {
    enc_worker_status_then(w, Seq::empty())
}

// ---------------------------------------------------------------- decoding

/// What is left of `b` after its first `n` bytes.
pub open spec fn after(b: Seq<u8>, n: int) -> Seq<u8> {
    b.subrange(n, b.len() as int)
}

pub open spec fn take_u64(b: Seq<u8>) -> Option<(u64, Seq<u8>)> {
    if b.len() >= 8 {
        Some((spec_u64_from_le_bytes(b.subrange(0, 8)), after(b, 8)))
    } else {
        None
    }
}

pub open spec fn take_u32(b: Seq<u8>) -> Option<(u32, Seq<u8>)> {
    if b.len() >= 4 {
        Some((spec_u32_from_le_bytes(b.subrange(0, 4)), after(b, 4)))
    } else {
        None
    }
}

pub open spec fn take_i64(b: Seq<u8>) -> Option<(i64, Seq<u8>)> {
    match take_u64(b) {
        Some((shifted, rest)) => Some(((shifted - sign_shift()) as i64, rest)),
        None => None,
    }
}

pub open spec fn take_str(b: Seq<u8>) -> Option<(Seq<char>, Seq<u8>)> {
    match take_u64(b) {
        Some((n, rest)) => if n <= rest.len() && valid_utf8(rest.subrange(0, n as int)) {
            Some((decode_utf8(rest.subrange(0, n as int)), after(rest, n as int)))
        } else {
            None
        },
        None => None,
    }
}

pub open spec fn take_time(b: Seq<u8>) -> Option<(Timestamp, Seq<u8>)> {
    match take_i64(b) {
        Some((secs, rest)) => match take_u32(rest) {
            Some((nanos, rest)) => Some((Timestamp { secs, nanos }, rest)),
            None => None,
        },
        None => None,
    }
}

pub open spec fn take_status(b: Seq<u8>) -> Option<(SyncStatus, Seq<u8>)> {
    if b.len() >= 1 {
        Some((status_of_tag(b[0]), after(b, 1)))
    } else {
        None
    }
}

pub open spec fn take_bool(b: Seq<u8>) -> Option<(bool, Seq<u8>)> {
    if b.len() >= 1 && b[0] <= 1 {
        Some((b[0] == 1, after(b, 1)))
    } else {
        None
    }
}

/// What follows the header of a record of this kind: any version from the
/// first on is read, and no other kind.
pub open spec fn take_header(b: Seq<u8>, kind: u8) -> Option<Seq<u8>> {
    if b.len() >= 2 && b[0] >= 1 && b[1] == kind {
        Some(after(b, 2))
    } else {
        None
    }
}

/// The five strings that a mirror's record starts with.
pub open spec fn take_mirror_texts(b: Seq<u8>) -> Option<
    ((Seq<char>, Seq<char>, Seq<char>, Seq<char>, Seq<char>), Seq<u8>),
> {
    match take_str(b) {
        Some((name, b)) => match take_str(b) {
            Some((worker, b)) => match take_str(b) {
                Some((upstream, b)) => match take_str(b) {
                    Some((size, b)) => match take_str(b) {
                        Some((error_msg, b)) => Some(((name, worker, upstream, size, error_msg), b)),
                        None => None,
                    },
                    None => None,
                },
                None => None,
            },
            None => None,
        },
        None => None,
    }
}

/// The four times of a mirror's record.
pub open spec fn take_mirror_times(b: Seq<u8>) -> Option<
    ((Timestamp, Timestamp, Timestamp, Timestamp), Seq<u8>),
> {
    match take_time(b) {
        Some((last_update, b)) => match take_time(b) {
            Some((last_started, b)) => match take_time(b) {
                Some((lastt_ended, b)) => match take_time(b) {
                    Some((next_scheduled, b)) => Some(
                        ((last_update, last_started, lastt_ended, next_scheduled), b),
                    ),
                    None => None,
                },
                None => None,
            },
            None => None,
        },
        None => None,
    }
}

/// The record of a mirror that the bytes hold, if they hold one.
pub open spec fn decode_mirror_status(b: Seq<u8>) -> Option<MirrorStatusView> {
    match take_header(b, KIND_MIRROR) {
        Some(b) => match take_mirror_texts(b) {
            Some((texts, b)) => match take_mirror_times(b) {
                Some((times, b)) => match take_status(b) {
                    Some((status, b)) => match take_bool(b) {
                        Some((is_master, _)) => Some(
                            MirrorStatusView {
                                name: texts.0,
                                worker: texts.1,
                                upstream: texts.2,
                                size: texts.3,
                                error_msg: texts.4,
                                last_update: times.0,
                                last_started: times.1,
                                lastt_ended: times.2,
                                next_scheduled: times.3,
                                status,
                                is_master,
                            },
                        ),
                        None => None,
                    },
                    None => None,
                },
                None => None,
            },
            None => None,
        },
        None => None,
    }
}

/// The record of a worker that the bytes hold, if they hold one.
pub open spec fn decode_worker_status(b: Seq<u8>) -> Option<WorkerStatusView> {
    match take_header(b, KIND_WORKER) {
        Some(b) => match take_str(b) {
            Some((id, b)) => match take_str(b) {
                Some((url, b)) => match take_str(b) {
                    Some((token, b)) => match take_time(b) {
                        Some((last_online, b)) => match take_time(b) {
                            Some((last_register, _)) => Some(
                                WorkerStatusView { id, url, token, last_online, last_register },
                            ),
                            None => None,
                        },
                        None => None,
                    },
                    None => None,
                },
                None => None,
            },
            None => None,
        },
        None => None,
    }
}

// ------------------------------------------------------------------- laws

pub proof fn lemma_take_u64(x: u64, rest: Seq<u8>)
    ensures
        take_u64(enc_u64(x) + rest) == Some((x, rest)),
{
    lemma_auto_spec_u64_to_from_le_bytes();
    let b = enc_u64(x) + rest;
    assert(b.subrange(0, 8) =~= enc_u64(x));
    assert(after(b, 8) =~= rest);
}

pub proof fn lemma_take_u32(x: u32, rest: Seq<u8>)
    ensures
        take_u32(enc_u32(x) + rest) == Some((x, rest)),
{
    lemma_auto_spec_u32_to_from_le_bytes();
    let b = enc_u32(x) + rest;
    assert(b.subrange(0, 4) =~= enc_u32(x));
    assert(after(b, 4) =~= rest);
}

pub proof fn lemma_take_i64(x: i64, rest: Seq<u8>)
    ensures
        take_i64(enc_i64(x) + rest) == Some((x, rest)),
{
    lemma_take_u64((x + sign_shift()) as u64, rest);
}

pub proof fn lemma_take_str(text: Seq<char>, rest: Seq<u8>)
    requires
        encode_utf8(text).len() <= u64::MAX,
    ensures
        take_str(enc_str(text) + rest) == Some((text, rest)),
{
    let bytes = encode_utf8(text);
    let n = bytes.len() as u64;
    assert(enc_str(text) + rest =~= enc_u64(n) + (bytes + rest));
    lemma_take_u64(n, bytes + rest);
    assert((bytes + rest).subrange(0, n as int) =~= bytes);
    assert(after(bytes + rest, n as int) =~= rest);
    encode_utf8_valid_utf8(text);
    encode_utf8_decode_utf8(text);
}

pub proof fn lemma_take_time(t: Timestamp, rest: Seq<u8>)
    ensures
        take_time(enc_time(t) + rest) == Some((t, rest)),
{
    assert(enc_time(t) + rest =~= enc_i64(t.secs) + (enc_u32(t.nanos) + rest));
    lemma_take_i64(t.secs, enc_u32(t.nanos) + rest);
    lemma_take_u32(t.nanos, rest);
}

pub proof fn lemma_take_status(status: SyncStatus, rest: Seq<u8>)
    ensures
        take_status(enc_status(status) + rest) == Some((status, rest)),
{
    assert(after(enc_status(status) + rest, 1) =~= rest);
}

pub proof fn lemma_take_bool(b: bool, rest: Seq<u8>)
    ensures
        take_bool(enc_bool(b) + rest) == Some((b, rest)),
{
    assert(after(enc_bool(b) + rest, 1) =~= rest);
}

/// Whether every string of the record is short enough for its length to be
/// written. Every record that fits in memory is.
pub open spec fn mirror_status_fits(m: MirrorStatusView) -> bool {
    &&& encode_utf8(m.name).len() <= u64::MAX
    &&& encode_utf8(m.worker).len() <= u64::MAX
    &&& encode_utf8(m.upstream).len() <= u64::MAX
    &&& encode_utf8(m.size).len() <= u64::MAX
    &&& encode_utf8(m.error_msg).len() <= u64::MAX
}

pub open spec fn worker_status_fits(w: WorkerStatusView) -> bool {
    &&& encode_utf8(w.id).len() <= u64::MAX
    &&& encode_utf8(w.url).len() <= u64::MAX
    &&& encode_utf8(w.token).len() <= u64::MAX
}

/// Decoding what was encoded gives the record back, whatever bytes follow
/// it.
pub proof fn lemma_mirror_status_round_trip(m: MirrorStatusView, tail: Seq<u8>)
    requires
        mirror_status_fits(m),
    ensures
        decode_mirror_status(enc_mirror_status_then(m, tail)) == Some(m),
{
    let b11 = enc_bool(m.is_master) + tail;
    let b10 = enc_status(m.status) + b11;
    let b9 = enc_time(m.next_scheduled) + b10;
    let b8 = enc_time(m.lastt_ended) + b9;
    let b7 = enc_time(m.last_started) + b8;
    let b6 = enc_time(m.last_update) + b7;
    let b5 = enc_str(m.error_msg) + b6;
    let b4 = enc_str(m.size) + b5;
    let b3 = enc_str(m.upstream) + b4;
    let b2 = enc_str(m.worker) + b3;
    let b1 = enc_str(m.name) + b2;
    let b0 = header(KIND_MIRROR) + b1;
    assert(after(b0, 2) =~= b1);
    lemma_take_str(m.name, b2);
    lemma_take_str(m.worker, b3);
    lemma_take_str(m.upstream, b4);
    lemma_take_str(m.size, b5);
    lemma_take_str(m.error_msg, b6);
    assert(take_mirror_texts(b1) == Some(
        ((m.name, m.worker, m.upstream, m.size, m.error_msg), b6),
    ));
    lemma_take_time(m.last_update, b7);
    lemma_take_time(m.last_started, b8);
    lemma_take_time(m.lastt_ended, b9);
    lemma_take_time(m.next_scheduled, b10);
    assert(take_mirror_times(b6) == Some(
        ((m.last_update, m.last_started, m.lastt_ended, m.next_scheduled), b10),
    ));
    lemma_take_status(m.status, b11);
    lemma_take_bool(m.is_master, tail);
}

/// Decoding what was encoded gives the record back, whatever bytes follow
/// it.
pub proof fn lemma_worker_status_round_trip(w: WorkerStatusView, tail: Seq<u8>)
    requires
        worker_status_fits(w),
    ensures
        decode_worker_status(enc_worker_status_then(w, tail)) == Some(w),
{
    let b5 = enc_time(w.last_register) + tail;
    let b4 = enc_time(w.last_online) + b5;
    let b3 = enc_str(w.token) + b4;
    let b2 = enc_str(w.url) + b3;
    let b1 = enc_str(w.id) + b2;
    let b0 = header(KIND_WORKER) + b1;
    assert(after(b0, 2) =~= b1);
    lemma_take_str(w.id, b2);
    lemma_take_str(w.url, b3);
    lemma_take_str(w.token, b4);
    lemma_take_time(w.last_online, b5);
    lemma_take_time(w.last_register, tail);
}

// ------------------------------------------------------------------ writer

fn put_u64(out: &mut Vec<u8>, x: u64)
    ensures
        final(out)@ == old(out)@ + enc_u64(x),
{
    let mut bytes = u64_to_le_bytes(x);
    out.append(&mut bytes);
}

fn put_u32(out: &mut Vec<u8>, x: u32)
    ensures
        final(out)@ == old(out)@ + enc_u32(x),
{
    let mut bytes = u32_to_le_bytes(x);
    out.append(&mut bytes);
}

fn put_i64(out: &mut Vec<u8>, x: i64)
    ensures
        final(out)@ == old(out)@ + enc_i64(x),
{
    let shifted: i128 = x as i128 + 0x8000_0000_0000_0000i128;
    put_u64(out, shifted as u64);
}

fn put_str(out: &mut Vec<u8>, text: &str)
    ensures
        final(out)@ == old(out)@ + enc_str(text@),
        encode_utf8(text@).len() <= u64::MAX,
{
    let mut bytes = text.as_bytes_vec();
    put_u64(out, bytes.len() as u64);
    out.append(&mut bytes);
    assert(out@ =~= old(out)@ + enc_str(text@));
}

fn put_time(out: &mut Vec<u8>, t: Timestamp)
    ensures
        final(out)@ == old(out)@ + enc_time(t),
{
    put_i64(out, t.secs);
    put_u32(out, t.nanos);
    assert(out@ =~= old(out)@ + enc_time(t));
}

fn status_to_tag(status: SyncStatus) -> (tag: u8)
    ensures
        tag == status_tag(status),
{
    match status {
        SyncStatus::NeverSynced => 0,
        SyncStatus::Failed => 1,
        SyncStatus::Success => 2,
        SyncStatus::Syncing => 3,
        SyncStatus::PreSyncing => 4,
        SyncStatus::Paused => 5,
        SyncStatus::Disabled => 6,
        SyncStatus::Unknown => 7,
    }
}

fn tag_to_status(tag: u8) -> (status: SyncStatus)
    ensures
        status == status_of_tag(tag),
{
    if tag == 0 {
        SyncStatus::NeverSynced
    } else if tag == 1 {
        SyncStatus::Failed
    } else if tag == 2 {
        SyncStatus::Success
    } else if tag == 3 {
        SyncStatus::Syncing
    } else if tag == 4 {
        SyncStatus::PreSyncing
    } else if tag == 5 {
        SyncStatus::Paused
    } else if tag == 6 {
        SyncStatus::Disabled
    } else {
        SyncStatus::Unknown
    }
}

/// Joining byte strings does not depend on how they are grouped.
proof fn lemma_join_assoc(a: Seq<u8>, b: Seq<u8>, c: Seq<u8>)
    ensures
        (a + b) + c == a + (b + c),
{
    assert((a + b) + c =~= a + (b + c));
}

/// Writes the record of a mirror.
pub fn encode_mirror_status(m: &MirrorStatus) -> (bytes: Vec<u8>)
    ensures
        bytes@ == enc_mirror_status(m@),
        mirror_status_fits(m@),
        decode_mirror_status(bytes@) == Some(m@),
{
    let ghost v = m@;
    let ghost f0 = header(KIND_MIRROR);
    let mut out: Vec<u8> = Vec::new();
    out.push(FORMAT_VERSION);
    out.push(KIND_MIRROR);
    assert(out@ =~= f0);
    put_str(&mut out, m.name.as_str());
    let ghost l1 = out@;
    put_str(&mut out, m.worker.as_str());
    let ghost l2 = out@;
    put_str(&mut out, m.upstream.as_str());
    let ghost l3 = out@;
    put_str(&mut out, m.size.as_str());
    let ghost l4 = out@;
    put_str(&mut out, m.error_msg.as_str());
    let ghost l5 = out@;
    put_time(&mut out, m.last_update);
    let ghost l6 = out@;
    put_time(&mut out, m.last_started);
    let ghost l7 = out@;
    put_time(&mut out, m.lastt_ended);
    let ghost l8 = out@;
    put_time(&mut out, m.next_scheduled);
    let ghost l9 = out@;
    out.push(status_to_tag(m.status));
    let ghost l10 = out@;
    assert(l10 =~= l9 + enc_status(v.status));
    out.push(
        if m.is_master {
            1
        } else {
            0
        },
    );
    let ghost l11 = out@;
    assert(l11 =~= l10 + enc_bool(v.is_master));
    proof {
        let r12 = Seq::<u8>::empty();
        let r11 = enc_bool(v.is_master) + r12;
        let r10 = enc_status(v.status) + r11;
        let r9 = enc_time(v.next_scheduled) + r10;
        let r8 = enc_time(v.lastt_ended) + r9;
        let r7 = enc_time(v.last_started) + r8;
        let r6 = enc_time(v.last_update) + r7;
        let r5 = enc_str(v.error_msg) + r6;
        let r4 = enc_str(v.size) + r5;
        let r3 = enc_str(v.upstream) + r4;
        let r2 = enc_str(v.worker) + r3;
        let r1 = enc_str(v.name) + r2;
        assert(l11 + r12 =~= l11);
        lemma_join_assoc(l10, enc_bool(v.is_master), r12);
        lemma_join_assoc(l9, enc_status(v.status), r11);
        lemma_join_assoc(l8, enc_time(v.next_scheduled), r10);
        lemma_join_assoc(l7, enc_time(v.lastt_ended), r9);
        lemma_join_assoc(l6, enc_time(v.last_started), r8);
        lemma_join_assoc(l5, enc_time(v.last_update), r7);
        lemma_join_assoc(l4, enc_str(v.error_msg), r6);
        lemma_join_assoc(l3, enc_str(v.size), r5);
        lemma_join_assoc(l2, enc_str(v.upstream), r4);
        lemma_join_assoc(l1, enc_str(v.worker), r3);
        lemma_join_assoc(f0, enc_str(v.name), r2);
        assert(l11 == f0 + r1);
        lemma_mirror_status_round_trip(v, Seq::empty());
    }
    out
}

/// Writes the record of a worker.
pub fn encode_worker_status(w: &WorkerStatus) -> (bytes: Vec<u8>)
    ensures
        bytes@ == enc_worker_status(w@),
        worker_status_fits(w@),
        decode_worker_status(bytes@) == Some(w@),
{
    let ghost v = w@;
    let ghost f0 = header(KIND_WORKER);
    let mut out: Vec<u8> = Vec::new();
    out.push(FORMAT_VERSION);
    out.push(KIND_WORKER);
    assert(out@ =~= f0);
    put_str(&mut out, w.id.as_str());
    let ghost l1 = out@;
    put_str(&mut out, w.url.as_str());
    let ghost l2 = out@;
    put_str(&mut out, w.token.as_str());
    let ghost l3 = out@;
    put_time(&mut out, w.last_online);
    let ghost l4 = out@;
    put_time(&mut out, w.last_register);
    let ghost l5 = out@;
    proof {
        let r6 = Seq::<u8>::empty();
        let r5 = enc_time(v.last_register) + r6;
        let r4 = enc_time(v.last_online) + r5;
        let r3 = enc_str(v.token) + r4;
        let r2 = enc_str(v.url) + r3;
        let r1 = enc_str(v.id) + r2;
        assert(l5 + r6 =~= l5);
        lemma_join_assoc(l4, enc_time(v.last_register), r6);
        lemma_join_assoc(l3, enc_time(v.last_online), r5);
        lemma_join_assoc(l2, enc_str(v.token), r4);
        lemma_join_assoc(l1, enc_str(v.url), r3);
        lemma_join_assoc(f0, enc_str(v.id), r2);
        assert(l5 == f0 + r1);
        lemma_worker_status_round_trip(v, Seq::empty());
    }
    out
}

// ------------------------------------------------------------------ reader

/// A place in a byte string from which fields are read one after another.
struct Reader<'a> {
    bytes: &'a [u8],
    pos: usize,
}

impl<'a> Reader<'a> {
    spec fn wf(&self) -> bool {
        self.pos <= self.bytes@.len()
    }

    /// The bytes that are still to be read.
    spec fn rest(&self) -> Seq<u8> {
        after(self.bytes@, self.pos as int)
    }

    fn new(bytes: &'a [u8]) -> (r: Reader<'a>)
        ensures
            r.wf(),
            r.rest() == bytes@,
    {
        let r = Reader { bytes, pos: 0 };
        assert(r.rest() =~= bytes@);
        r
    }

    fn left(&self) -> (n: usize)
        requires
            self.wf(),
        ensures
            n == self.rest().len(),
    {
        self.bytes.len() - self.pos
    }

    fn byte(&mut self) -> (r: Option<u8>)
        requires
            old(self).wf(),
        ensures
            final(self).wf(),
            match r {
                Some(b) => old(self).rest().len() >= 1 && b == old(self).rest()[0] && final(self).rest() == after(old(self).rest(), 1),
                None => old(self).rest().len() == 0 && *final(self) == *old(self),
            },
    {
        if self.left() < 1 {
            return None;
        }
        let b = self.bytes[self.pos];
        self.pos = self.pos + 1;
        assert(self.rest() =~= after(old(self).rest(), 1));
        Some(b)
    }

    fn chunk(&mut self, n: usize) -> (r: Option<&'a [u8]>)
        requires
            old(self).wf(),
        ensures
            final(self).wf(),
            match r {
                Some(c) => n <= old(self).rest().len() && c@ == old(self).rest().subrange(
                    0,
                    n as int,
                ) && final(self).rest() == after(old(self).rest(), n as int),
                None => n > old(self).rest().len() && *final(self) == *old(self),
            },
    {
        if self.left() < n {
            return None;
        }
        let len = self.bytes.len();
        assert(self.pos + n <= len);
        let c = slice_subrange(self.bytes, self.pos, self.pos + n);
        self.pos = self.pos + n;
        assert(c@ =~= old(self).rest().subrange(0, n as int));
        assert(self.rest() =~= after(old(self).rest(), n as int));
        Some(c)
    }

    fn read_u64(&mut self) -> (r: Option<u64>)
        requires
            old(self).wf(),
        ensures
            final(self).wf(),
            match take_u64(old(self).rest()) {
                Some((x, rest)) => r == Some(x) && final(self).rest() == rest,
                None => r is None,
            },
    {
        match self.chunk(8) {
            Some(c) => Some(u64_from_le_bytes(c)),
            None => None,
        }
    }

    fn read_u32(&mut self) -> (r: Option<u32>)
        requires
            old(self).wf(),
        ensures
            final(self).wf(),
            match take_u32(old(self).rest()) {
                Some((x, rest)) => r == Some(x) && final(self).rest() == rest,
                None => r is None,
            },
    {
        match self.chunk(4) {
            Some(c) => Some(u32_from_le_bytes(c)),
            None => None,
        }
    }

    fn read_i64(&mut self) -> (r: Option<i64>)
        requires
            old(self).wf(),
        ensures
            final(self).wf(),
            match take_i64(old(self).rest()) {
                Some((x, rest)) => r == Some(x) && final(self).rest() == rest,
                None => r is None,
            },
    {
        match self.read_u64() {
            Some(shifted) => {
                let x: i128 = shifted as i128 - 0x8000_0000_0000_0000i128;
                Some(x as i64)
            },
            None => None,
        }
    }

    fn read_str(&mut self) -> (r: Option<String>)
        requires
            old(self).wf(),
        ensures
            final(self).wf(),
            match take_str(old(self).rest()) {
                Some((text, rest)) => r is Some && r->0@ == text && final(self).rest() == rest,
                None => r is None,
            },
    {
        let n = match self.read_u64() {
            Some(n) => n,
            None => {
                return None;
            },
        };
        if n > self.left() as u64 {
            return None;
        }
        let c = match self.chunk(n as usize) {
            Some(c) => c,
            None => {
                return None;
            },
        };
        match string_from_utf8(slice_to_vec(c)) {
            Some(text) => {
                proof {
                    encode_utf8_decode_utf8(text@);
                }
                Some(text)
            },
            None => None,
        }
    }

    fn read_time(&mut self) -> (r: Option<Timestamp>)
        requires
            old(self).wf(),
        ensures
            final(self).wf(),
            match take_time(old(self).rest()) {
                Some((t, rest)) => r == Some(t) && final(self).rest() == rest,
                None => r is None,
            },
    {
        let secs = match self.read_i64() {
            Some(secs) => secs,
            None => {
                return None;
            },
        };
        match self.read_u32() {
            Some(nanos) => Some(Timestamp { secs, nanos }),
            None => None,
        }
    }

    fn read_status(&mut self) -> (r: Option<SyncStatus>)
        requires
            old(self).wf(),
        ensures
            final(self).wf(),
            match take_status(old(self).rest()) {
                Some((status, rest)) => r == Some(status) && final(self).rest() == rest,
                None => r is None,
            },
    {
        match self.byte() {
            Some(tag) => Some(tag_to_status(tag)),
            None => None,
        }
    }

    fn read_bool(&mut self) -> (r: Option<bool>)
        requires
            old(self).wf(),
        ensures
            final(self).wf(),
            match take_bool(old(self).rest()) {
                Some((b, rest)) => r == Some(b) && final(self).rest() == rest,
                None => r is None,
            },
    {
        match self.byte() {
            Some(b) => if b <= 1 {
                Some(b == 1)
            } else {
                None
            },
            None => None,
        }
    }

    fn read_header(&mut self, kind: u8) -> (r: Option<u8>)
        requires
            old(self).wf(),
        ensures
            final(self).wf(),
            match take_header(old(self).rest(), kind) {
                Some(rest) => r is Some && final(self).rest() == rest,
                None => r is None,
            },
    {
        match self.chunk(2) {
            Some(c) => if c[0] >= 1 && c[1] == kind {
                Some(c[0])
            } else {
                None
            },
            None => None,
        }
    }
}

/// Reads the record of a mirror. `None` where the bytes hold none.
pub fn decode_mirror_status_bytes(bytes: &[u8]) -> (r: Option<MirrorStatus>)
    ensures
        match decode_mirror_status(bytes@) {
            Some(m) => r is Some && r->0@ == m,
            None => r is None,
        },
{
    let mut reader = Reader::new(bytes);
    let _version = reader.read_header(KIND_MIRROR)?;
    let name = reader.read_str()?;
    let worker = reader.read_str()?;
    let upstream = reader.read_str()?;
    let size = reader.read_str()?;
    let error_msg = reader.read_str()?;
    let last_update = reader.read_time()?;
    let last_started = reader.read_time()?;
    let lastt_ended = reader.read_time()?;
    let next_scheduled = reader.read_time()?;
    let status = reader.read_status()?;
    let is_master = reader.read_bool()?;
    Some(
        MirrorStatus {
            name,
            worker,
            upstream,
            size,
            error_msg,
            last_update,
            last_started,
            lastt_ended,
            next_scheduled,
            status,
            is_master,
        },
    )
}

/// Reads the record of a worker. `None` where the bytes hold none.
pub fn decode_worker_status_bytes(bytes: &[u8]) -> (r: Option<WorkerStatus>)
    ensures
        match decode_worker_status(bytes@) {
            Some(w) => r is Some && r->0@ == w,
            None => r is None,
        },
{
    let mut reader = Reader::new(bytes);
    let _version = reader.read_header(KIND_WORKER)?;
    let id = reader.read_str()?;
    let url = reader.read_str()?;
    let token = reader.read_str()?;
    let last_online = reader.read_time()?;
    let last_register = reader.read_time()?;
    Some(WorkerStatus { id, url, token, last_online, last_register })
}

} // verus!
