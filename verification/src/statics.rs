//! The file of static assignments: one `hardware address,IPv4 address` on
//! each line.

use vstd::prelude::*;
use crate::lease::StaticAssignment;
use crate::text::{parse_ipv4, spec_ipv4_text, spec_split, spec_texts, spec_trim, split, trim};

verus! {

/// The six bytes that `mac_address::MacAddress` reads from a text, and
/// nothing where it refuses the text.
pub uninterp spec fn spec_mac_text(text: Seq<char>) -> Option<Seq<u8>>;

/// What one line of the file says.
#[derive(Clone, Copy, Debug, PartialEq, Eq)]
pub enum StaticLine {
    /// Not one comma: the line is passed over.
    Skipped,
    /// An assignment.
    Entry(StaticAssignment),
    /// One comma, but no hardware address before it or no address after it.
    Malformed,
}

/// The hardware address made of the first six of `bytes`.
pub open spec fn spec_mac_of(bytes: Seq<u8>) -> [u8; 6] {
    [bytes[0], bytes[1], bytes[2], bytes[3], bytes[4], bytes[5]]
}

/// What a line says whose two fields were read as `mac` and `ip`.
pub open spec fn spec_static_entry(mac: Option<Seq<u8>>, ip: Option<u32>) -> StaticLine {
    match (mac, ip) {
        (Some(m), Some(ip)) => StaticLine::Entry(StaticAssignment { mac: spec_mac_of(m), ip }),
        _ => StaticLine::Malformed,
    }
}

/// What the line `line` says. The hardware address is the text before the
/// comma as it stands; the address is the text after it, white space
/// around it set aside.
pub open spec fn spec_static_line(line: Seq<char>) -> StaticLine {
    let parts = spec_split(line, ',');
    if parts.len() != 2 {
        StaticLine::Skipped
    } else {
        spec_static_entry(spec_mac_text(parts[0]), spec_ipv4_text(spec_trim(parts[1])))
    }
}

/// The assignments that `lines` make, in order, or the index of the first
/// malformed line.
pub open spec fn spec_static_lines(lines: Seq<Seq<char>>) -> Result<Seq<StaticAssignment>, nat>
    decreases lines.len(),
{
    if lines.len() == 0 {
        Ok(Seq::empty())
    } else {
        match spec_static_lines(lines.drop_last()) {
            Err(at) => Err(at),
            Ok(found) => match spec_static_line(lines.last()) {
                StaticLine::Skipped => Ok(found),
                StaticLine::Entry(a) => Ok(found.push(a)),
                StaticLine::Malformed => Err((lines.len() - 1) as nat),
            },
        }
    }
}

/// The bytes of a hardware address, as a caller of `spec_static_entry`
/// hands them over.
pub open spec fn spec_mac_bytes(mac: Option<[u8; 6]>) -> Option<Seq<u8>> {
    match mac {
        Some(m) => Some(m@),
        None => None,
    }
}

/// `MacAddress::from_str` of `mac_address`, and `MacAddress::bytes` on what
/// it gives: the six bytes read from `text`, or nothing where the text is
/// refused. The result depends on `text` alone.
#[verifier::external_body]
fn mac_from_text(text: &str) -> (mac: Option<[u8; 6]>)
    ensures
        spec_mac_bytes(mac) == spec_mac_text(text@),
{
    match text.parse::<mac_address::MacAddress>() {
        Ok(mac) => Some(mac.bytes()),
        Err(_) => None,
    }
}

/// What a line says whose two fields were read as `mac` and `ip`: an
/// assignment where both were read, else a malformed line.
pub fn static_entry(mac: Option<[u8; 6]>, ip: Option<u32>) -> (line: StaticLine)
    ensures
        line == spec_static_entry(spec_mac_bytes(mac), ip),
{
    match (mac, ip) {
        (Some(m), Some(ip)) => {
            assert(m =~= spec_mac_of(m@));
            StaticLine::Entry(StaticAssignment { mac: m, ip })
        },
        _ => StaticLine::Malformed,
    }
}

/// Reads one line of the file.
pub fn parse_static_line(line: &str) -> (said: StaticLine)
    ensures
        said == spec_static_line(line@),
{
    let parts = split(line, ',');
    if parts.len() != 2 {
        return StaticLine::Skipped;
    }
    assert(spec_texts(parts@)[0] == parts[0]@);
    assert(spec_texts(parts@)[1] == parts[1]@);
    let mac = mac_from_text(parts[0]);
    let ip = parse_ipv4(trim(parts[1]));
    static_entry(mac, ip)
}

/// Reads the lines of the file: every assignment in order, or the index of
/// the first malformed line.
pub fn parse_static_lines(lines: &Vec<String>) -> (r: Result<Vec<StaticAssignment>, usize>)
    ensures
        match r {
            Ok(found) => spec_static_lines(lines.deep_view()) == Ok::<Seq<StaticAssignment>, nat>(
                found@,
            ),
            Err(at) => spec_static_lines(lines.deep_view()) == Err::<Seq<StaticAssignment>, nat>(
                at as nat,
            ),
        },
{
    let mut found: Vec<StaticAssignment> = Vec::new();
    let mut i: usize = 0;
    let ghost all = lines.deep_view();
    assert(all.take(0) =~= Seq::<Seq<char>>::empty());
    while i < lines.len()
        invariant
            i <= lines.len(),
            all == lines.deep_view(),
            spec_static_lines(all.take(i as int)) == Ok::<Seq<StaticAssignment>, nat>(found@),
        decreases lines.len() - i,
    {
        let said = parse_static_line(lines[i].as_str());
        proof {
            let done = all.take(i + 1);
            assert(done.drop_last() =~= all.take(i as int));
            assert(done.last() == lines[i as int]@);
        }
        match said {
            StaticLine::Skipped => {},
            StaticLine::Entry(a) => {
                found.push(a);
            },
            StaticLine::Malformed => {
                proof {
                    lemma_static_lines_error(all, i as int);
                }
                return Err(i);
            },
        }
        i += 1;
    }
    assert(all.take(lines.len() as int) =~= all);
    Ok(found)
}

/// An error among the first lines is the error of all the lines.
pub proof fn lemma_static_lines_error(lines: Seq<Seq<char>>, at: int)
    requires
        0 <= at < lines.len(),
        spec_static_lines(lines.take(at + 1)) is Err,
    ensures
        spec_static_lines(lines) == spec_static_lines(lines.take(at + 1)),
    decreases lines.len(),
{
    if at + 1 == lines.len() {
        assert(lines.take(at + 1) =~= lines);
    } else {
        assert(lines.drop_last().take(at + 1) =~= lines.take(at + 1));
        lemma_static_lines_error(lines.drop_last(), at);
    }
}

} // verus!
