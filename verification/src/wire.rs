//! Helpers for the wire format of the replication protocol: PostgreSQL
//! timestamps, the text form of a log sequence number, and the
//! StandbyStatusUpdate frame.

use vstd::prelude::*;
use crate::buffer::{
    be_bytes_i64,
    be_bytes_u64,
    bytes_contents,
    bytes_mut_contents,
    put_i64,
    put_u64,
    put_u8,
};

verus! {

/// Microseconds from the Unix epoch, 1970-01-01T00:00:00Z, to the
/// PostgreSQL epoch, 2000-01-01T00:00:00Z.
pub const PG_EPOCH_OFFSET_USEC: i64 = 946_684_800_000_000;

/// `std::time::SystemTime`, a reading of the system clock.
#[verifier::external_type_specification]
#[verifier::external_body]
pub struct ExSystemTime(std::time::SystemTime);

/// `std::time::SystemTimeError`, which says that one reading of the clock
/// is earlier than another.
#[verifier::external_type_specification]
#[verifier::external_body]
pub struct ExSystemTimeError(std::time::SystemTimeError);

/// `SystemTime::now`: the current reading of the clock. Nothing is
/// promised of a clock.
pub assume_specification[ std::time::SystemTime::now ]() -> (now: std::time::SystemTime)
;

/// `SystemTime::duration_since`: the time that has passed from `earlier`
/// to `time`, or an error where `earlier` is the later of the two. Nothing
/// is promised of the result.
pub assume_specification[ std::time::SystemTime::duration_since ](
    time: &std::time::SystemTime,
    earlier: std::time::SystemTime,
) -> (elapsed: Result<std::time::Duration, std::time::SystemTimeError>)
;

/// `Duration::as_micros`: the whole microseconds in a duration. Nothing is
/// promised of the result.
pub assume_specification[ std::time::Duration::as_micros ](
    duration: &std::time::Duration,
) -> (micros: u128)
;

/// `std::time::UNIX_EPOCH`, the reading of a clock at 1970-01-01T00:00:00Z.
#[verifier::external_body]
fn unix_epoch() -> (epoch: std::time::SystemTime) {
    std::time::UNIX_EPOCH
}

/// The PostgreSQL timestamp of the moment `unix_micros` microseconds after
/// the Unix epoch: the microseconds since the PostgreSQL epoch. A count
/// that does not fit in 64 bits is cut down to its low 64 bits, and the
/// difference wraps around.
pub fn pg_timestamp_at(unix_micros: u128) -> (r: i64)
    ensures
        unix_micros <= i64::MAX ==> r == unix_micros - PG_EPOCH_OFFSET_USEC,
        r == (unix_micros as i64).wrapping_sub(PG_EPOCH_OFFSET_USEC),
{
    let usec: i64 = #[verifier::truncate]
    (unix_micros as i64);
    usec.wrapping_sub(PG_EPOCH_OFFSET_USEC)
}

/// The current time as a PostgreSQL timestamp: microseconds since
/// 2000-01-01T00:00:00Z. A clock that stands before the Unix epoch counts
/// as standing at it.
pub fn pg_timestamp() -> (r: i64) {
    let now = std::time::SystemTime::now();
    let usec: u128 = match now.duration_since(unix_epoch()) {
        Ok(elapsed) => elapsed.as_micros(),
        Err(_) => 0,
    };
    pg_timestamp_at(usec)
}

/// The hexadecimal digit of `n`, in upper case.
pub open spec fn hex_digit_upper(n: nat) -> char
    recommends
        n < 16,
{
    if n < 10 {
        ('0' as u32 + n) as char
    } else {
        ('A' as u32 + (n - 10)) as char
    }
}

/// `n` in upper-case hexadecimal, without leading zeros.
pub open spec fn hex_upper(n: nat) -> Seq<char>
    decreases n,
{
    if n < 16 {
        seq![hex_digit_upper(n)]
    } else {
        hex_upper(n / 16).push(hex_digit_upper(n % 16))
    }
}

/// The text form of a log sequence number: its upper and lower 32 bits in
/// upper-case hexadecimal, separated by `/`.
pub open spec fn spec_format_lsn(lsn: u64) -> Seq<char> {
    hex_upper(lsn as nat / 0x1_0000_0000) + seq!['/'] + hex_upper(lsn as nat % 0x1_0000_0000)
}

fn hex_char_upper(n: u64) -> (r: char)
    requires
        n < 16,
    ensures
        r == hex_digit_upper(n as nat),
{
    let code: u8 = if n < 10 {
        ('0' as u32 + n as u32) as u8
    } else {
        ('A' as u32 + (n as u32 - 10)) as u8
    };
    code as char
}

fn push_hex_upper(out: &mut String, n: u64)
    ensures
        final(out)@ == old(out)@ + hex_upper(n as nat),
    decreases n,
{
    if n >= 16 {
        push_hex_upper(out, n / 16);
    }
    out.push(hex_char_upper(n % 16));
    assert(out@ =~= old(out)@ + hex_upper(n as nat));
}

/// Writes a log sequence number as PostgreSQL does: `16/B374D848`. The
/// number zero, which stands for the slot's consistent point, is `0/0`.
pub fn format_lsn(lsn: u64) -> (r: String)
    ensures
        r@ == spec_format_lsn(lsn),
        lsn == 0 ==> r@ == seq!['0', '/', '0'],
{
    let mut out = String::new();
    push_hex_upper(&mut out, lsn / 0x1_0000_0000);
    out.push('/');
    push_hex_upper(&mut out, lsn % 0x1_0000_0000);
    assert(out@ =~= spec_format_lsn(lsn));
    out
}

/// The StandbyStatusUpdate frame that acknowledges `lsn` at the time
/// `timestamp`: the tag `r`; the position written, the position flushed and
/// the position applied, all three `lsn`; the timestamp; and a zero byte
/// that asks for no reply. All numbers are big-endian.
pub open spec fn standby_status_frame(lsn: u64, timestamp: i64) -> Seq<u8> {
    seq![0x72u8] + be_bytes_u64(lsn) + be_bytes_u64(lsn) + be_bytes_u64(lsn) + be_bytes_i64(
        timestamp,
    ) + seq![0u8]
}

/// Every frame has 34 bytes: the tag, three times the position, the
/// timestamp and the reply byte, each in its place.
pub proof fn lemma_standby_status_frame_layout(lsn: u64, timestamp: i64)
    ensures
        ({
            let frame = standby_status_frame(lsn, timestamp);
            &&& frame.len() == 34
            &&& frame[0] == 0x72
            &&& frame.subrange(1, 9) == be_bytes_u64(lsn)
            &&& frame.subrange(9, 17) == be_bytes_u64(lsn)
            &&& frame.subrange(17, 25) == be_bytes_u64(lsn)
            &&& frame.subrange(25, 33) == be_bytes_i64(timestamp)
            &&& frame[33] == 0
        }),
{
    let frame = standby_status_frame(lsn, timestamp);
    assert(be_bytes_u64(lsn).len() == 8);
    assert(be_bytes_i64(timestamp).len() == 8);
    assert(frame.subrange(1, 9) =~= be_bytes_u64(lsn));
    assert(frame.subrange(9, 17) =~= be_bytes_u64(lsn));
    assert(frame.subrange(17, 25) =~= be_bytes_u64(lsn));
    assert(frame.subrange(25, 33) =~= be_bytes_i64(timestamp));
}

/// Builds the StandbyStatusUpdate frame for `lsn` with the given
/// timestamp.
pub fn standby_status_update_at(lsn: u64, timestamp: i64) -> (r: bytes::Bytes)
    ensures
        bytes_contents(r) == standby_status_frame(lsn, timestamp),
{
    let mut buf = bytes::BytesMut::with_capacity(34);
    put_u8(&mut buf, 0x72);
    put_u64(&mut buf, lsn);
    put_u64(&mut buf, lsn);
    put_u64(&mut buf, lsn);
    put_i64(&mut buf, timestamp);
    put_u8(&mut buf, 0);
    assert(bytes_mut_contents(buf) =~= standby_status_frame(lsn, timestamp));
    buf.freeze()
}

/// Builds the StandbyStatusUpdate frame that confirms `lsn` to PostgreSQL,
/// stamped with the current time.
///
/// Whatever the clock says, the frame has 34 bytes, starts with the tag
/// `0x72`, carries `lsn` three times and ends with a zero byte.
pub fn build_standby_status_update(lsn: u64) -> (r: bytes::Bytes)
    ensures
        exists|timestamp: i64| bytes_contents(r) == standby_status_frame(lsn, timestamp),
        bytes_contents(r).len() == 34,
        bytes_contents(r)[0] == 0x72,
        bytes_contents(r).subrange(1, 9) == be_bytes_u64(lsn),
        bytes_contents(r).subrange(9, 17) == bytes_contents(r).subrange(1, 9),
        bytes_contents(r).subrange(17, 25) == bytes_contents(r).subrange(1, 9),
        bytes_contents(r)[33] == 0,
{
    let timestamp = pg_timestamp();
    proof {
        lemma_standby_status_frame_layout(lsn, timestamp);
    }
    standby_status_update_at(lsn, timestamp)
}

} // verus!
