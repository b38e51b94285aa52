//! NMEA 0183 sentence handling for the GPS receiver: checksum verification,
//! sentence classification, and the fix-quality and satellite fields.

use vstd::prelude::*;
use crate::text::{
    bytes_eq, digit_value, digits_value, ends_with, ends_with_spec, parse_unsigned,
    parse_unsigned_spec, split_fields, split_spec, trim_spec, trim_whitespace,
};

verus! {

/// GPS fix quality indicator.
#[derive(Debug, Clone, Copy, PartialEq, Eq)]
pub enum FixQuality {
    NoFix,
    GpsFix,
    DifferentialFix,
    PpsFix,
    RtkFixed,
    RtkFloat,
    Estimated,
    Manual,
    Simulation,
}

/// The fix quality with NMEA code `val` (0..=8); any other code means no fix.
pub open spec fn fix_quality_of(val: u8) -> FixQuality {
    if val == 0 {
        FixQuality::NoFix
    } else if val == 1 {
        FixQuality::GpsFix
    } else if val == 2 {
        FixQuality::DifferentialFix
    } else if val == 3 {
        FixQuality::PpsFix
    } else if val == 4 {
        FixQuality::RtkFixed
    } else if val == 5 {
        FixQuality::RtkFloat
    } else if val == 6 {
        FixQuality::Estimated
    } else if val == 7 {
        FixQuality::Manual
    } else if val == 8 {
        FixQuality::Simulation
    } else {
        FixQuality::NoFix
    }
}

impl From<u8> for FixQuality {
    fn from(val: u8) -> (q: FixQuality) {
        match val {
            0 => FixQuality::NoFix,
            1 => FixQuality::GpsFix,
            2 => FixQuality::DifferentialFix,
            3 => FixQuality::PpsFix,
            4 => FixQuality::RtkFixed,
            5 => FixQuality::RtkFloat,
            6 => FixQuality::Estimated,
            7 => FixQuality::Manual,
            8 => FixQuality::Simulation,
            _ => FixQuality::NoFix,
        }
    }
}

impl vstd::std_specs::convert::FromSpecImpl<u8> for FixQuality {
    open spec fn obeys_from_spec() -> bool {
        true
    }

    open spec fn from_spec(val: u8) -> FixQuality {
        fix_quality_of(val)
    }
}

/// Exclusive-or of all bytes of `s`.
pub open spec fn xor_all(s: Seq<u8>) -> u8
    decreases s.len(),
{
    if s.len() == 0 {
        0
    } else {
        xor_all(s.drop_last()) ^ s.last()
    }
}

/// Index of the last occurrence of `c` in `s`.
pub open spec fn last_index_of(s: Seq<u8>, c: u8) -> Option<int>
    decreases s.len(),
{
    if s.len() == 0 {
        None
    } else if s.last() == c {
        Some(s.len() - 1)
    } else {
        last_index_of(s.drop_last(), c)
    }
}

/// Whether an NMEA sentence carries a valid checksum: it starts with `$`, contains
/// a `*`, and the hexadecimal number after the last `*` (read as the standard
/// library reads a `u8`) equals the exclusive-or of the bytes between `$` and that `*`.
pub open spec fn checksum_valid(s: Seq<u8>) -> bool {
    s.len() > 0 && s[0] == 36u8 && match last_index_of(s, 42u8) {
        Some(p) => match parse_unsigned_spec(s.subrange(p + 1, s.len() as int), 16, 255) {
            Some(v) => xor_all(s.subrange(1, p)) == v,
            None => false,
        },
        None => false,
    }
}

proof fn lemma_last_index_bounds(s: Seq<u8>, c: u8)
    ensures
        last_index_of(s, c) matches Some(p) ==> 0 <= p < s.len() && s[p] == c,
    decreases s.len(),
{
    if s.len() > 0 && s.last() != c {
        lemma_last_index_bounds(s.drop_last(), c);
    }
}

/// Index of the last occurrence of `c` in `s`.
pub fn rfind(s: &[u8], c: u8) -> (r: Option<usize>)
    ensures
        r matches Some(p) ==> last_index_of(s@, c) == Some(p as int),
        r is None ==> last_index_of(s@, c) is None,
{
    let mut i: usize = s.len();
    assert(s@.take(i as int) =~= s@);
    while i > 0
        invariant
            i <= s@.len(),
            last_index_of(s@, c) == last_index_of(s@.take(i as int), c),
        decreases i,
    {
        assert(s@.take(i as int).drop_last() =~= s@.take(i - 1));
        if s[i - 1] == c {
            return Some(i - 1);
        }
        i = i - 1;
    }
    None
}

/// Exclusive-or of the bytes `start .. end` of `s`.
pub fn xor_range(s: &[u8], start: usize, end: usize) -> (x: u8)
    requires
        start <= end <= s@.len(),
    ensures
        x == xor_all(s@.subrange(start as int, end as int)),
{
    let mut acc: u8 = 0;
    let mut i: usize = start;
    while i < end
        invariant
            start <= i <= end <= s@.len(),
            acc == xor_all(s@.subrange(start as int, i as int)),
        decreases end - i,
    {
        assert(s@.subrange(start as int, i + 1).drop_last() =~= s@.subrange(start as int, i as int));
        acc = acc ^ s[i];
        i = i + 1;
    }
    acc
}

/// Verify the checksum of an NMEA sentence (see `checksum_valid`).
pub fn verify_checksum(sentence: &[u8]) -> (ok: bool)
    ensures
        ok == checksum_valid(sentence@),
{
    if sentence.len() == 0 || sentence[0] != 36u8 {
        return false;
    }
    match rfind(sentence, 42u8) {
        None => false,
        Some(p) => {
            proof {
                lemma_last_index_bounds(sentence@, 42u8);
            }
            let (_head, tail) = sentence.split_at(p + 1);
            let checksum = xor_range(sentence, 1, p);
            match parse_unsigned(tail, 16, 255) {
                Some(expected) => checksum as u64 == expected,
                None => false,
            }
        },
    }
}

/// Upper-case hexadecimal digit of a value below 16.
pub open spec fn hex_digit_upper(n: int) -> u8 {
    if n < 10 {
        (48 + n) as u8
    } else {
        (55 + n) as u8
    }
}

/// The sentence `$`, `body`, `*` and the checksum `c` as two upper-case
/// hexadecimal digits.
pub open spec fn sentence_with_checksum(body: Seq<u8>, c: u8) -> Seq<u8> {
    seq![36u8] + body + seq![42u8] + seq![hex_digit_upper((c / 16) as int), hex_digit_upper((c % 16) as int)]
}

/// A sentence closed by a checksum is accepted exactly when the checksum is the
/// exclusive-or of the bytes between `$` and `*` (for a body without `*`).
pub proof fn lemma_checksum_seals_sentence(body: Seq<u8>, c: u8)
    requires
        !body.contains(42u8),
    ensures
        checksum_valid(sentence_with_checksum(body, c)) <==> xor_all(body) == c,
{
    let s = sentence_with_checksum(body, c);
    let hi = hex_digit_upper((c / 16) as int);
    let lo = hex_digit_upper((c % 16) as int);
    let p: int = body.len() as int + 1;
    let with_star = seq![36u8] + body + seq![42u8];
    assert(s.drop_last() =~= with_star.push(hi));
    assert(s.drop_last().drop_last() =~= with_star);
    assert(last_index_of(with_star, 42u8) == Some(p));
    assert(last_index_of(s.drop_last(), 42u8) == Some(p));
    assert(last_index_of(s, 42u8) == Some(p));
    let digits = s.subrange(p + 1, s.len() as int);
    assert(digits =~= seq![hi, lo]);
    assert(digit_value(hi, 16) == Some((c / 16) as int));
    assert(digit_value(lo, 16) == Some((c % 16) as int));
    assert(digits.drop_last() =~= seq![hi]);
    assert(digits.drop_last().drop_last() =~= Seq::<u8>::empty());
    assert(seq![hi].drop_last() =~= Seq::<u8>::empty());
    assert(digits_value(Seq::<u8>::empty(), 16) == Some(0int));
    assert(digits_value(seq![hi], 16) == Some((c / 16) as int));
    assert(digits_value(digits, 16) == Some(c as int));
    assert(parse_unsigned_spec(digits, 16, 255) == Some(c as int));
    assert(s.subrange(1, p) =~= body);
}

/// The kind of an NMEA sentence, told by the end of its first field.
#[derive(Debug, Clone, Copy, PartialEq, Eq)]
pub enum SentenceKind {
    /// Global positioning fix data.
    Gga,
    /// Recommended minimum navigation information.
    Rmc,
    /// Track made good and ground speed.
    Vtg,
    /// Any other sentence.
    Other,
}

/// The kind of a sentence whose first field is `tag`: it ends with `GGA`, `RMC`
/// or `VTG` (tested in that order).
pub open spec fn kind_of(tag: Seq<u8>) -> SentenceKind {
    if ends_with_spec(tag, seq![71u8, 71u8, 65u8]) {
        SentenceKind::Gga
    } else if ends_with_spec(tag, seq![82u8, 77u8, 67u8]) {
        SentenceKind::Rmc
    } else if ends_with_spec(tag, seq![86u8, 84u8, 71u8]) {
        SentenceKind::Vtg
    } else {
        SentenceKind::Other
    }
}

/// Whether the last three bytes of `tag` are `a`, `b`, `c`.
pub open spec fn last_three_are(tag: Seq<u8>, a: u8, b: u8, c: u8) -> bool {
    &&& tag.len() >= 3
    &&& tag[tag.len() - 3] == a
    &&& tag[tag.len() - 2] == b
    &&& tag[tag.len() - 1] == c
}

/// A sentence is a GGA, RMC or VTG sentence exactly when the last three letters
/// of its first field are `G G A`, `R M C` or `V T G` (bytes 71 71 65, 82 77 67,
/// 86 84 71); any other ending, such as `GSA`, makes it another sentence.
pub proof fn lemma_kind_by_last_three_letters(tag: Seq<u8>)
    ensures
        (kind_of(tag) == SentenceKind::Gga) == last_three_are(tag, 71u8, 71u8, 65u8),
        (kind_of(tag) == SentenceKind::Rmc) == last_three_are(tag, 82u8, 77u8, 67u8),
        (kind_of(tag) == SentenceKind::Vtg) == last_three_are(tag, 86u8, 84u8, 71u8),
        (kind_of(tag) == SentenceKind::Other) == (!last_three_are(tag, 71u8, 71u8, 65u8)
            && !last_three_are(tag, 82u8, 77u8, 67u8) && !last_three_are(tag, 86u8, 84u8, 71u8)),
{
    let n = tag.len() as int;
    if n >= 3 {
        let end = tag.subrange(n - 3, n);
        assert(end[0] == tag[n - 3] && end[1] == tag[n - 2] && end[2] == tag[n - 1]);
        assert(last_three_are(tag, 71u8, 71u8, 65u8) ==> end =~= seq![71u8, 71u8, 65u8]);
        assert(last_three_are(tag, 82u8, 77u8, 67u8) ==> end =~= seq![82u8, 77u8, 67u8]);
        assert(last_three_are(tag, 86u8, 84u8, 71u8) ==> end =~= seq![86u8, 84u8, 71u8]);
    }
}

/// Classify a sentence by its first field.
pub fn sentence_kind(tag: &[u8]) -> (k: SentenceKind)
    ensures
        k == kind_of(tag@),
        (k == SentenceKind::Gga) == last_three_are(tag@, 71u8, 71u8, 65u8),
        (k == SentenceKind::Rmc) == last_three_are(tag@, 82u8, 77u8, 67u8),
        (k == SentenceKind::Vtg) == last_three_are(tag@, 86u8, 84u8, 71u8),
{
    proof {
        lemma_kind_by_last_three_letters(tag@);
    }
    let gga: [u8; 3] = [71u8, 71u8, 65u8];
    let rmc: [u8; 3] = [82u8, 77u8, 67u8];
    let vtg: [u8; 3] = [86u8, 84u8, 71u8];
    assert(gga@ =~= seq![71u8, 71u8, 65u8]);
    assert(rmc@ =~= seq![82u8, 77u8, 67u8]);
    assert(vtg@ =~= seq![86u8, 84u8, 71u8]);
    if ends_with(tag, gga.as_slice()) {
        SentenceKind::Gga
    } else if ends_with(tag, rmc.as_slice()) {
        SentenceKind::Rmc
    } else if ends_with(tag, vtg.as_slice()) {
        SentenceKind::Vtg
    } else {
        SentenceKind::Other
    }
}

/// A checked sentence split into its comma-separated fields.
pub struct NmeaSentence {
    pub kind: SentenceKind,
    pub fields: Vec<Vec<u8>>,
}

/// Check and split a received line: surrounding white space (such as the line
/// end) is removed first; `None` when the checksum of what remains is invalid,
/// otherwise its kind and its fields.
pub fn parse_sentence(sentence: &[u8]) -> (r: Option<NmeaSentence>)
    ensures
        r is None <==> !checksum_valid(trim_spec(sentence@)),
        r matches Some(ns) ==> ns.fields.deep_view() == split_spec(trim_spec(sentence@), 44u8)
            && ns.kind == kind_of(split_spec(trim_spec(sentence@), 44u8)[0]),
{
    let sentence = trim_whitespace(sentence);
    if !verify_checksum(sentence) {
        return None;
    }
    let fields = split_fields(sentence, 44u8);
    let kind = sentence_kind(fields[0].as_slice());
    assert(fields[0]@ == fields.deep_view()[0]);
    Some(NmeaSentence { kind, fields })
}

/// The number read from a decimal field as the standard library reads a `u8`.
pub open spec fn field_u8(f: Seq<u8>) -> Option<int> {
    parse_unsigned_spec(f, 10, 255)
}

/// Fix quality and satellite count as last reported by the receiver.
#[derive(Debug, Clone, Copy, PartialEq, Eq)]
pub struct GpsFixStatus {
    pub fix_quality: FixQuality,
    pub satellites: u8,
}

impl GpsFixStatus {
    /// No fix and no satellites.
    pub fn new() -> (s: Self)
        ensures
            s.fix_quality == FixQuality::NoFix,
            s.satellites == 0,
    {
        GpsFixStatus { fix_quality: FixQuality::NoFix, satellites: 0 }
    }

    /// Whether the receiver has a valid fix: a fix quality other than "no fix"
    /// and at least one satellite.
    pub fn has_fix(&self) -> (b: bool)
        ensures
            b == (self.fix_quality != FixQuality::NoFix && self.satellites > 0),
    {
        !matches!(self.fix_quality, FixQuality::NoFix) && self.satellites > 0
    }

    /// Take the fix quality (field 6) and satellite count (field 7) of a GGA
    /// sentence: nothing changes for a sentence of fewer than 10 fields (the
    /// result tells whether the sentence was long enough to be used), and each
    /// value changes only when its field holds a valid `u8`.
    pub fn apply_gga(&mut self, fields: &Vec<Vec<u8>>) -> (used: bool)
        ensures
            used == (fields@.len() >= 10),
            fields@.len() < 10 ==> *final(self) == *old(self),
            fields@.len() >= 10 ==> final(self).fix_quality == (match field_u8(
                fields.deep_view()[6],
            ) {
                Some(v) => fix_quality_of(v as u8),
                None => old(self).fix_quality,
            }),
            fields@.len() >= 10 ==> final(self).satellites == (match field_u8(
                fields.deep_view()[7],
            ) {
                Some(v) => v as u8,
                None => old(self).satellites,
            }),
    {
        if fields.len() < 10 {
            return false;
        }
        assert(fields[6]@ == fields.deep_view()[6]);
        assert(fields[7]@ == fields.deep_view()[7]);
        if let Some(q) = parse_unsigned(fields[6].as_slice(), 10, 255) {
            self.fix_quality = FixQuality::from(q as u8);
        }
        if let Some(s) = parse_unsigned(fields[7].as_slice(), 10, 255) {
            self.satellites = s as u8;
        }
        true
    }
}

/// Whether a VTG sentence is long enough to carry its speed fields (at least 9 fields).
pub fn vtg_has_speed(fields: &Vec<Vec<u8>>) -> (b: bool)
    ensures
        b == (fields@.len() >= 9),
{
    fields.len() >= 9
}

/// Whether an RMC sentence reports an active fix: at least 9 fields, with field 2 equal to `A`.
pub open spec fn rmc_active_spec(fields: Seq<Seq<u8>>) -> bool {
    fields.len() >= 9 && fields[2] == seq![65u8]
}

/// Whether an RMC sentence reports an active fix (see `rmc_active_spec`).
pub fn rmc_active(fields: &Vec<Vec<u8>>) -> (b: bool)
    ensures
        b == rmc_active_spec(fields.deep_view()),
{
    if fields.len() < 9 {
        return false;
    }
    let a: [u8; 1] = [65u8];
    assert(a@ =~= seq![65u8]);
    assert(fields[2]@ == fields.deep_view()[2]);
    bytes_eq(fields[2].as_slice(), a.as_slice())
}

} // verus!
