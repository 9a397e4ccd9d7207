//! Parser for the game's `.WGT` team roster files.
use vstd::prelude::*;

use crate::bytes::{le_u32, read_u32_le};
use crate::cp1252::{decode_cstr, decode_cstr_spec, string_push};
use vstd::string::StringExecFns;

verus! {

/// Size of the file header (magic, version, team count, cheat flags).
pub const WGT_HEADER_SIZE: usize = 11;

/// Length of the fixed team-name field.
pub const TEAM_NAME_LEN: usize = 17;

/// Length of a fixed worm-name field.
pub const WORM_NAME_LEN: usize = 17;

/// Number of worm-name slots per team.
pub const WORMS_PER_TEAM: usize = 8;

/// Length of the soundbank / fanfare / grave / flag file-name fields.
pub const FILENAME_LEN: usize = 32;

/// Length of an embedded 256-colour palette (256 x 4 bytes).
pub const PALETTE_LEN: usize = 1024;

/// Size of the custom-grave bitmap (24 x 32, 8bpp).
pub const GRAVE_BMP_LEN: usize = 768;

/// Size of the team-flag bitmap (20 x 17, 8bpp).
pub const FLAG_BMP_LEN: usize = 340;

/// Per-team stats block: 10 stat dwords and 33 x 2 mission dwords.
pub const STATS_LEN: usize = 304;

/// Per-team trailer after the flag bitmap.
pub const POST_FLAG_LEN: usize = 110;

/// Size of a team record without a custom grave.
pub const TEAM_RECORD_LEN_NO_GRAVE: usize = 2032;

/// Size of a team record that embeds a custom grave.
pub const TEAM_RECORD_LEN_WITH_GRAVE: usize = 3856;

/// Grave ids at or above this value carry an inline custom-grave block.
pub const CUSTOM_GRAVE_THRESHOLD: u8 = 0x80;

/// The magic bytes that open a `.WGT` file: `WGT\0`.
pub open spec fn wgt_magic() -> Seq<u8> {
    seq![0x57u8, 0x47u8, 0x54u8, 0x00u8]
}

/// The magic bytes that open a `.WGT` file: `WGT\0`.
pub fn wgt_magic_bytes() -> (r: [u8; 4])
    ensures
        r@ == wgt_magic(),
{
    let r = [0x57u8, 0x47u8, 0x54u8, 0x00u8];
    assert(r@ =~= wgt_magic());
    r
}

/// Errors from parsing a `.WGT` team file.
#[derive(Debug, Clone, PartialEq, Eq)]
pub enum WgtError {
    /// The file is too short to hold the header.
    TooShortHeader { len: usize },
    /// The magic bytes are not `WGT\0`.
    BadMagic([u8; 4]),
    /// The data ran out inside team `team_index`: a field of `need` bytes
    /// started with only `have` bytes left.
    Truncated { team_index: usize, need: usize, have: usize },
}

/// The character of digit `d` (0 to 15): `0`-`9`, then `A`-`F`.
pub open spec fn digit_char(d: int) -> char {
    if d < 10 {
        (48 + d) as char
    } else {
        (55 + d) as char
    }
}

/// `n` written in decimal.
pub open spec fn decimal(n: nat) -> Seq<char>
    decreases n,
{
    if n < 10 {
        seq![digit_char(n as int)]
    } else {
        decimal(n / 10).push(digit_char((n % 10) as int))
    }
}

/// `b` written as two upper-case hexadecimal digits.
pub open spec fn hex2(b: u8) -> Seq<char> {
    seq![digit_char((b / 16) as int), digit_char((b % 16) as int)]
}

/// The message of a team-file error.
pub open spec fn wgt_error_text(e: WgtError) -> Seq<char> {
    match e {
        WgtError::TooShortHeader { len } => "file too short ("@ + decimal(len as nat)
            + " bytes, need at least "@ + decimal(WGT_HEADER_SIZE as nat) + ")"@,
        WgtError::BadMagic(m) => "bad magic: "@ + hex2(m[0]) + " "@ + hex2(m[1]) + " "@ + hex2(m[2])
            + " "@ + hex2(m[3]) + " (expected WGT\\0)"@,
        WgtError::Truncated { team_index, need, have } => "truncated at team "@ + decimal(
            team_index as nat,
        ) + ": need "@ + decimal(need as nat) + " more bytes, have "@ + decimal(have as nat),
    }
}

fn digit_of(d: u8) -> (c: char)
    requires
        d < 16,
    ensures
        c == digit_char(d as int),
{
    if d < 10 {
        (48u8 + d) as char
    } else {
        (55u8 + d) as char
    }
}

fn push_decimal(s: &mut String, n: usize)
    ensures
        final(s)@ == old(s)@ + decimal(n as nat),
    decreases n,
{
    if n >= 10 {
        push_decimal(s, n / 10);
    }
    let c = digit_of((n % 10) as u8);
    string_push(s, c);
    assert(s@ =~= old(s)@ + decimal(n as nat));
}

fn push_hex2(s: &mut String, b: u8)
    ensures
        final(s)@ == old(s)@ + hex2(b),
{
    let hi = digit_of(b / 16);
    let lo = digit_of(b % 16);
    string_push(s, hi);
    string_push(s, lo);
    assert(s@ =~= old(s)@ + hex2(b));
}

impl WgtError {
    /// The message that describes this error.
    pub fn message(&self) -> (r: String)
        ensures
            r@ == wgt_error_text(*self),
    {
        let mut s = String::new();
        match self {
            WgtError::TooShortHeader { len } => {
                s.append("file too short (");
                push_decimal(&mut s, *len);
                s.append(" bytes, need at least ");
                push_decimal(&mut s, WGT_HEADER_SIZE);
                s.append(")");
            },
            WgtError::BadMagic(m) => {
                s.append("bad magic: ");
                push_hex2(&mut s, m[0]);
                s.append(" ");
                push_hex2(&mut s, m[1]);
                s.append(" ");
                push_hex2(&mut s, m[2]);
                s.append(" ");
                push_hex2(&mut s, m[3]);
                s.append(" (expected WGT\\0)");
            },
            WgtError::Truncated { team_index, need, have } => {
                s.append("truncated at team ");
                push_decimal(&mut s, *team_index);
                s.append(": need ");
                push_decimal(&mut s, *need);
                s.append(" more bytes, have ");
                push_decimal(&mut s, *have);
            },
        }
        s
    }
}

/// Header-level cheat flags and roster metadata (offsets 4 and 6..=10).
#[derive(Debug, Clone, Copy, Default, PartialEq, Eq)]
pub struct WgtHeader {
    pub unknown_04: u8,
    pub utility_cheats: u8,
    pub weapon_cheats: u8,
    pub game_cheats: u8,
    pub indestructible_full_wormage: u8,
    pub unknown_0a: u8,
}

/// Custom grave block: file name, 256-colour palette and 24 x 32 bitmap.
#[derive(Debug, Clone, PartialEq, Eq)]
pub struct CustomGrave {
    pub filename: [u8; 32],
    pub palette: Vec<u8>,
    pub bitmap: Vec<u8>,
}

/// Team flag: file name, 256-colour palette and 20 x 17 bitmap.
#[derive(Debug, Clone, PartialEq, Eq)]
pub struct TeamFlag {
    pub filename: [u8; 32],
    pub palette: Vec<u8>,
    pub bitmap: Vec<u8>,
}

/// One team's record within a `.WGT` file.
#[derive(Debug, Clone, PartialEq, Eq)]
pub struct WgtTeam {
    pub name: [u8; 17],
    pub worm_names: [[u8; 17]; 8],
    pub control: u8,
    pub soundbank_name: [u8; 32],
    pub soundbank_location: u8,
    pub fanfare_name: [u8; 32],
    pub use_custom_fanfare: u8,
    pub grave_id: u8,
    pub custom_grave: Option<CustomGrave>,
    pub team_weapon: u8,
    pub stats: Vec<u8>,
    pub flag: TeamFlag,
    pub dm_rank: i8,
    pub training_times: [u32; 6],
    pub unknown_40: Vec<u8>,
    pub training_medals: [u8; 6],
    pub unknown_10: Vec<u8>,
    pub unknown_7dwords: [u32; 7],
    pub unknown_tail: u8,
}

/// A parsed `.WGT` file: header and team roster.
#[derive(Debug, Clone, PartialEq, Eq)]
pub struct WgtFile {
    pub header: WgtHeader,
    pub teams: Vec<WgtTeam>,
}

// ---- Specification of the format ----

/// The sizes of the fields of a team record, in file order.
pub open spec fn wgt_field_sizes(custom_grave: bool) -> Seq<usize> {
    seq![17usize, 17, 17, 17, 17, 17, 17, 17, 17, 1, 32, 1, 32, 1, 1] + (if custom_grave {
        seq![32usize, 1024, 768]
    } else {
        Seq::<usize>::empty()
    }) + seq![1usize, 304, 32, 1024, 340, 1, 4, 4, 4, 4, 4, 4, 40, 6, 10, 4, 4, 4, 4, 4, 4, 4, 1]
}

/// The first field (from `pos` on) that does not fit in `r` bytes, as the
/// pair (field size, bytes left at its start).
pub open spec fn first_overflow(sizes: Seq<usize>, pos: int, r: int) -> Option<(usize, usize)>
    decreases sizes.len(),
{
    if sizes.len() == 0 {
        None
    } else if pos + sizes[0] > r {
        Some((sizes[0], (r - pos) as usize))
    } else {
        first_overflow(sizes.drop_first(), pos + sizes[0], r)
    }
}

/// Offset of the grave id within a team record.
pub open spec fn grave_off() -> int {
    220
}

/// Whether the team record at `s` embeds a custom grave.
pub open spec fn team_has_grave(d: Seq<u8>, s: int) -> bool {
    d[s + grave_off()] >= 0x80
}

/// Length of the team record at `s`.
pub open spec fn team_record_len(d: Seq<u8>, s: int) -> int {
    if team_has_grave(d, s) {
        3856
    } else {
        2032
    }
}

/// Offset of team `i`'s record.
pub open spec fn team_start(d: Seq<u8>, i: nat) -> int
    decreases i,
{
    if i == 0 {
        11
    } else {
        team_start(d, (i - 1) as nat) + team_record_len(d, team_start(d, (i - 1) as nat))
    }
}

/// The truncation (if any) inside the team record at `s`.
pub open spec fn team_overflow(d: Seq<u8>, s: int) -> Option<(usize, usize)> {
    let r = d.len() - s;
    let custom = r > grave_off() && team_has_grave(d, s);
    first_overflow(wgt_field_sizes(custom), 0, r)
}

/// The error of the first team from `i` on whose record does not fit.
pub open spec fn teams_error(d: Seq<u8>, i: nat, count: nat) -> Option<WgtError>
    decreases count - i,
{
    if i >= count {
        None
    } else {
        match team_overflow(d, team_start(d, i)) {
            Some((need, have)) => Some(
                WgtError::Truncated { team_index: i as usize, need, have },
            ),
            None => teams_error(d, i + 1, count),
        }
    }
}

/// The error that parsing `d` yields, if any.
pub open spec fn wgt_error(d: Seq<u8>) -> Option<WgtError> {
    if d.len() < 11 {
        Some(WgtError::TooShortHeader { len: d.len() as usize })
    } else if d.take(4) != wgt_magic() {
        Some(WgtError::BadMagic([d[0], d[1], d[2], d[3]]))
    } else {
        teams_error(d, 0, d[5] as nat)
    }
}

/// The team record at `s` holds exactly the fields of `t`.
pub open spec fn team_matches(t: WgtTeam, d: Seq<u8>, s: int) -> bool {
    let g: int = if team_has_grave(d, s) { 1824 } else { 0 };
    let b = s + 221 + g;
    &&& t.name@ == d.subrange(s, s + 17)
    &&& forall|w: int|
        0 <= w < 8 ==> (#[trigger] t.worm_names@[w])@ == d.subrange(s + 17 + 17 * w, s + 34 + 17 * w)
    &&& t.control == d[s + 153]
    &&& t.soundbank_name@ == d.subrange(s + 154, s + 186)
    &&& t.soundbank_location == d[s + 186]
    &&& t.fanfare_name@ == d.subrange(s + 187, s + 219)
    &&& t.use_custom_fanfare == d[s + 219]
    &&& t.grave_id == d[s + 220]
    &&& (team_has_grave(d, s) <==> t.custom_grave is Some)
    &&& (t.custom_grave matches Some(cg) ==> {
        &&& cg.filename@ == d.subrange(s + 221, s + 253)
        &&& cg.palette@ == d.subrange(s + 253, s + 1277)
        &&& cg.bitmap@ == d.subrange(s + 1277, s + 2045)
    })
    &&& t.team_weapon == d[b]
    &&& t.stats@ == d.subrange(b + 1, b + 305)
    &&& t.flag.filename@ == d.subrange(b + 305, b + 337)
    &&& t.flag.palette@ == d.subrange(b + 337, b + 1361)
    &&& t.flag.bitmap@ == d.subrange(b + 1361, b + 1701)
    &&& t.dm_rank == d[b + 1701] as i8
    &&& forall|k: int| 0 <= k < 6 ==> #[trigger] t.training_times@[k] == le_u32(d, b + 1702 + 4 * k)
    &&& t.unknown_40@ == d.subrange(b + 1726, b + 1766)
    &&& t.training_medals@ == d.subrange(b + 1766, b + 1772)
    &&& t.unknown_10@ == d.subrange(b + 1772, b + 1782)
    &&& forall|k: int| 0 <= k < 7 ==> #[trigger] t.unknown_7dwords@[k] == le_u32(d, b + 1782 + 4 * k)
    &&& t.unknown_tail == d[b + 1810]
}

/// Sum of a sequence of sizes.
pub open spec fn seq_sum(sizes: Seq<usize>) -> int
    decreases sizes.len(),
{
    if sizes.len() == 0 {
        0
    } else {
        sizes[0] + seq_sum(sizes.drop_first())
    }
}

proof fn lemma_record_sizes()
    ensures
        seq_sum(wgt_field_sizes(false)) == 2032,
        seq_sum(wgt_field_sizes(true)) == 3856,
{
    reveal_with_fuel(seq_sum, 45);
    assert(wgt_field_sizes(false) =~= seq![17usize, 17, 17, 17, 17, 17, 17, 17, 17, 1, 32, 1, 32, 1, 1, 1, 304, 32, 1024, 340, 1, 4, 4, 4, 4, 4, 4, 40, 6, 10, 4, 4, 4, 4, 4, 4, 4, 1]);
    assert(wgt_field_sizes(true) =~= seq![17usize, 17, 17, 17, 17, 17, 17, 17, 17, 1, 32, 1, 32, 1, 1, 32, 1024, 768, 1, 304, 32, 1024, 340, 1, 4, 4, 4, 4, 4, 4, 40, 6, 10, 4, 4, 4, 4, 4, 4, 4, 1]);
}

proof fn lemma_first_overflow_none(sizes: Seq<usize>, pos: int, r: int)
    requires
        pos <= r,
    ensures
        first_overflow(sizes, pos, r) is None <==> pos + seq_sum(sizes) <= r,
    decreases sizes.len(),
{
    if sizes.len() > 0 {
        lemma_seq_sum_nonneg(sizes.drop_first());
        if pos + sizes[0] <= r {
            lemma_first_overflow_none(sizes.drop_first(), pos + sizes[0], r);
        }
    }
}

proof fn lemma_seq_sum_nonneg(sizes: Seq<usize>)
    ensures
        seq_sum(sizes) >= 0,
    decreases sizes.len(),
{
    if sizes.len() > 0 {
        lemma_seq_sum_nonneg(sizes.drop_first());
    }
}

/// The field sizes of a team record, in file order.
fn field_sizes(custom_grave: bool) -> (v: Vec<usize>)
    ensures
        v@ == wgt_field_sizes(custom_grave),
{
    let mut v: Vec<usize> = vec![17, 17, 17, 17, 17, 17, 17, 17, 17, 1, 32, 1, 32, 1, 1];
    if custom_grave {
        v.push(32);
        v.push(1024);
        v.push(768);
    }
    let tail: Vec<usize> = vec![1, 304, 32, 1024, 340, 1, 4, 4, 4, 4, 4, 4, 40, 6, 10, 4, 4, 4, 4, 4, 4, 4, 1];
    let mut i: usize = 0;
    let ghost head = v@;
    while i < tail.len()
        invariant
            i <= tail@.len(),
            v@ == head + tail@.take(i as int),
        decreases tail.len() - i,
    {
        v.push(tail[i]);
        i = i + 1;
        assert(v@ =~= head + tail@.take(i as int));
    }
    assert(tail@.take(i as int) =~= tail@);
    assert(v@ =~= wgt_field_sizes(custom_grave));
    v
}

/// Find the first field that does not fit in the `r` bytes left.
fn find_overflow(sizes: &Vec<usize>, r: usize) -> (res: Option<(usize, usize)>)
    requires
        forall|i: int| 0 <= i < sizes@.len() ==> sizes@[i] <= 4096,
    ensures
        res == first_overflow(sizes@, 0, r as int),
{
    let mut pos: usize = 0;
    let mut i: usize = 0;
    assert(sizes@.skip(0) =~= sizes@);
    while i < sizes.len()
        invariant
            i <= sizes@.len(),
            pos <= r,
            forall|k: int| 0 <= k < sizes@.len() ==> sizes@[k] <= 4096,
            first_overflow(sizes@, 0, r as int) == first_overflow(sizes@.skip(i as int), pos as int, r as int),
        decreases sizes.len() - i,
    {
        let n = sizes[i];
        assert(sizes@.skip(i as int)[0] == n);
        assert(sizes@.skip(i as int).drop_first() =~= sizes@.skip(i + 1));
        if n > r - pos {
            return Some((n, r - pos));
        }
        pos = pos + n;
        i = i + 1;
    }
    None
}

/// The error that a read of `n` bytes at `pos` reports when it does not fit.
pub open spec fn short_read_error(len: usize, pos: usize, n: usize, team_index: usize) -> WgtError {
    if pos < 11 {
        WgtError::TooShortHeader { len }
    } else {
        WgtError::Truncated { team_index, need: n, have: (len - pos) as usize }
    }
}

/// Reading position within a byte buffer.
struct Cursor<'a> {
    data: &'a [u8],
    pos: usize,
}

impl<'a> Cursor<'a> {
    fn new(data: &'a [u8]) -> (c: Cursor<'a>)
        ensures
            c.data@ == data@,
            c.pos == 0,
    {
        Cursor { data, pos: 0 }
    }

    /// Check that `n` more bytes are available.
    fn need(&self, n: usize, team_index: usize) -> (r: Result<(), WgtError>)
        requires
            self.pos <= self.data@.len(),
            n <= 4096,
        ensures
            r is Ok <==> self.pos + n <= self.data@.len(),
            r matches Err(e) ==> e == short_read_error(self.data@.len() as usize, self.pos, n, team_index),
    {
        if n > self.data.len() - self.pos {
            if self.pos < 11 {
                return Err(WgtError::TooShortHeader { len: self.data.len() });
            }
            return Err(WgtError::Truncated { team_index, need: n, have: self.data.len() - self.pos });
        }
        Ok(())
    }

    fn read_u8(&mut self, team_index: usize) -> (r: Result<u8, WgtError>)
        requires
            old(self).pos <= old(self).data@.len(),
        ensures
            final(self).data == old(self).data,
            r is Ok <==> old(self).pos + 1 <= old(self).data@.len(),
            r matches Ok(b) ==> b == old(self).data@[old(self).pos as int] && final(self).pos == old(self).pos + 1,
            r matches Err(e) ==> e == short_read_error(old(self).data@.len() as usize, old(self).pos, 1, team_index)
                && final(self).pos == old(self).pos,
    {
        match self.need(1, team_index) {
            Err(e) => return Err(e),
            Ok(()) => {},
        }
        let b = self.data[self.pos];
        self.pos = self.pos + 1;
        Ok(b)
    }

    fn read_u32_le(&mut self, team_index: usize) -> (r: Result<u32, WgtError>)
        requires
            old(self).pos <= old(self).data@.len(),
        ensures
            final(self).data == old(self).data,
            r is Ok <==> old(self).pos + 4 <= old(self).data@.len(),
            r matches Ok(v) ==> v == le_u32(old(self).data@, old(self).pos as int) && final(self).pos == old(self).pos + 4,
            r matches Err(e) ==> e == short_read_error(old(self).data@.len() as usize, old(self).pos, 4, team_index)
                && final(self).pos == old(self).pos,
    {
        match self.need(4, team_index) {
            Err(e) => return Err(e),
            Ok(()) => {},
        }
        let len = self.data.len();
        let v = read_u32_le(self.data, self.pos);
        self.pos = self.pos + 4;
        Ok(v)
    }

    fn read_array<const N: usize>(&mut self, team_index: usize) -> (r: Result<[u8; N], WgtError>)
        requires
            old(self).pos <= old(self).data@.len(),
            N <= 4096,
        ensures
            final(self).data == old(self).data,
            r is Ok <==> old(self).pos + N <= old(self).data@.len(),
            r matches Ok(a) ==> a@ == old(self).data@.subrange(old(self).pos as int, old(self).pos + N)
                && final(self).pos == old(self).pos + N,
            r matches Err(e) ==> e == short_read_error(old(self).data@.len() as usize, old(self).pos, N, team_index)
                && final(self).pos == old(self).pos,
    {
        match self.need(N, team_index) {
            Err(e) => return Err(e),
            Ok(()) => {},
        }
        let len = self.data.len();
        let mut out: [u8; N] = vstd::array::array_fill_for_copy_types(0u8);
        let start = self.pos;
        let mut i: usize = 0;
        while i < N
            invariant
                i <= N,
                start + N <= self.data@.len(),
                len == self.data@.len(),
                out@.len() == N,
                forall|k: int| 0 <= k < i ==> out@[k] == self.data@[start + k],
            decreases N - i,
        {
            out[i] = self.data[start + i];
            i = i + 1;
        }
        assert(out@ =~= self.data@.subrange(start as int, start + N));
        self.pos = start + N;
        Ok(out)
    }

    fn read_vec(&mut self, n: usize, team_index: usize) -> (r: Result<Vec<u8>, WgtError>)
        requires
            old(self).pos <= old(self).data@.len(),
            n <= 4096,
        ensures
            final(self).data == old(self).data,
            r is Ok <==> old(self).pos + n <= old(self).data@.len(),
            r matches Ok(v) ==> v@ == old(self).data@.subrange(old(self).pos as int, old(self).pos + n)
                && final(self).pos == old(self).pos + n,
            r matches Err(e) ==> e == short_read_error(old(self).data@.len() as usize, old(self).pos, n, team_index)
                && final(self).pos == old(self).pos,
    {
        match self.need(n, team_index) {
            Err(e) => return Err(e),
            Ok(()) => {},
        }
        let len = self.data.len();
        let start = self.pos;
        let mut v: Vec<u8> = Vec::new();
        let mut i: usize = 0;
        while i < n
            invariant
                i <= n,
                start + n <= self.data@.len(),
                len == self.data@.len(),
                v@ == self.data@.subrange(start as int, start + i),
            decreases n - i,
        {
            v.push(self.data[start + i]);
            i = i + 1;
            assert(v@ =~= self.data@.subrange(start as int, start + i));
        }
        self.pos = start + n;
        Ok(v)
    }
}

impl WgtTeam {
    /// Read one team record at the cursor.
    #[verifier::rlimit(50)]
    fn read(c: &mut Cursor<'_>, idx: usize) -> (r: Result<WgtTeam, WgtError>)
        requires
            11 <= old(c).pos <= old(c).data@.len(),
        ensures
            final(c).data == old(c).data,
            team_overflow(old(c).data@, old(c).pos as int) matches Some((n, h)) ==> r == Err::<WgtTeam, WgtError>(
                WgtError::Truncated { team_index: idx, need: n, have: h },
            ),
            team_overflow(old(c).data@, old(c).pos as int) is None ==> {
                &&& r matches Ok(t) && team_matches(t, old(c).data@, old(c).pos as int)
                &&& final(c).pos == old(c).pos + team_record_len(old(c).data@, old(c).pos as int)
                &&& final(c).pos <= final(c).data@.len()
            },
    {
        let len = c.data.len();
        let p = c.pos;
        let rem = len - p;
        let custom = rem > 220 && c.data[p + 220] >= 0x80;
        let sizes = field_sizes(custom);
        match find_overflow(&sizes, rem) {
            Some((n, h)) => {
                return Err(WgtError::Truncated { team_index: idx, need: n, have: h });
            },
            None => {},
        }
        proof {
            lemma_first_overflow_none(sizes@, 0, rem as int);
            lemma_record_sizes();
        }
        let ghost d = c.data@;
        let name = match c.read_array::<17>(idx) { Ok(v) => v, Err(e) => return Err(e) };
        let mut worm_names: [[u8; 17]; 8] = vstd::array::array_fill_for_copy_types([0u8; 17]);
        let mut w: usize = 0;
        while w < 8
            invariant
                c.data@ == d,
                d.len() == len,
                p + (if custom { 3856int } else { 2032int }) <= len,
                c.pos == p + 17 + 17 * w,
                w <= 8,
                worm_names@.len() == 8,
                forall|k: int| 0 <= k < w ==> (#[trigger] worm_names@[k])@ == d.subrange(p + 17 + 17 * k, p + 34 + 17 * k),
            decreases 8 - w,
        {
            let a = match c.read_array::<17>(idx) { Ok(v) => v, Err(e) => return Err(e) };
            worm_names[w] = a;
            w = w + 1;
        }
        let control = match c.read_u8(idx) { Ok(v) => v, Err(e) => return Err(e) };
        let soundbank_name = match c.read_array::<32>(idx) { Ok(v) => v, Err(e) => return Err(e) };
        let soundbank_location = match c.read_u8(idx) { Ok(v) => v, Err(e) => return Err(e) };
        let fanfare_name = match c.read_array::<32>(idx) { Ok(v) => v, Err(e) => return Err(e) };
        let use_custom_fanfare = match c.read_u8(idx) { Ok(v) => v, Err(e) => return Err(e) };
        let grave_id = match c.read_u8(idx) { Ok(v) => v, Err(e) => return Err(e) };
        let custom_grave = if grave_id >= CUSTOM_GRAVE_THRESHOLD {
            let filename = match c.read_array::<32>(idx) { Ok(v) => v, Err(e) => return Err(e) };
            let palette = match c.read_vec(PALETTE_LEN, idx) { Ok(v) => v, Err(e) => return Err(e) };
            let bitmap = match c.read_vec(GRAVE_BMP_LEN, idx) { Ok(v) => v, Err(e) => return Err(e) };
            Some(CustomGrave { filename, palette, bitmap })
        } else {
            None
        };
        let team_weapon = match c.read_u8(idx) { Ok(v) => v, Err(e) => return Err(e) };
        let stats = match c.read_vec(STATS_LEN, idx) { Ok(v) => v, Err(e) => return Err(e) };
        let flag_filename = match c.read_array::<32>(idx) { Ok(v) => v, Err(e) => return Err(e) };
        let flag_palette = match c.read_vec(PALETTE_LEN, idx) { Ok(v) => v, Err(e) => return Err(e) };
        let flag_bitmap = match c.read_vec(FLAG_BMP_LEN, idx) { Ok(v) => v, Err(e) => return Err(e) };
        let flag = TeamFlag { filename: flag_filename, palette: flag_palette, bitmap: flag_bitmap };
        let dm_rank_byte = match c.read_u8(idx) { Ok(v) => v, Err(e) => return Err(e) };
        let dm_rank = dm_rank_byte as i8;
        let ghost b = c.pos as int;
        let mut training_times: [u32; 6] = [0u32; 6];
        let mut k: usize = 0;
        while k < 6
            invariant
                c.data@ == d,
                d.len() == len,
                b + 109 <= len,
                c.pos == b + 4 * k,
                k <= 6,
                training_times@.len() == 6,
                forall|j: int| 0 <= j < k ==> #[trigger] training_times@[j] == le_u32(d, b + 4 * j),
            decreases 6 - k,
        {
            let v = match c.read_u32_le(idx) { Ok(v) => v, Err(e) => return Err(e) };
            training_times[k] = v;
            k = k + 1;
        }
        let unknown_40 = match c.read_vec(40, idx) { Ok(v) => v, Err(e) => return Err(e) };
        let training_medals = match c.read_array::<6>(idx) { Ok(v) => v, Err(e) => return Err(e) };
        let unknown_10 = match c.read_vec(10, idx) { Ok(v) => v, Err(e) => return Err(e) };
        let ghost b2 = c.pos as int;
        let mut unknown_7dwords: [u32; 7] = [0u32; 7];
        let mut k2: usize = 0;
        while k2 < 7
            invariant
                c.data@ == d,
                d.len() == len,
                b2 + 29 <= len,
                c.pos == b2 + 4 * k2,
                k2 <= 7,
                unknown_7dwords@.len() == 7,
                forall|j: int| 0 <= j < k2 ==> #[trigger] unknown_7dwords@[j] == le_u32(d, b2 + 4 * j),
            decreases 7 - k2,
        {
            let v = match c.read_u32_le(idx) { Ok(v) => v, Err(e) => return Err(e) };
            unknown_7dwords[k2] = v;
            k2 = k2 + 1;
        }
        let unknown_tail = match c.read_u8(idx) { Ok(v) => v, Err(e) => return Err(e) };
        Ok(
            WgtTeam {
                name,
                worm_names,
                control,
                soundbank_name,
                soundbank_location,
                fanfare_name,
                use_custom_fanfare,
                grave_id,
                custom_grave,
                team_weapon,
                stats,
                flag,
                dm_rank,
                training_times,
                unknown_40,
                training_medals,
                unknown_10,
                unknown_7dwords,
                unknown_tail,
            },
        )
    }
}

impl WgtFile {
    /// Parse a `.WGT` file from its entire contents.
    pub fn from_bytes(data: &[u8]) -> (r: Result<WgtFile, WgtError>)
        ensures
            wgt_error(data@) matches Some(e) ==> r == Err::<WgtFile, WgtError>(e),
            wgt_error(data@) is None ==> (r matches Ok(f) && {
                &&& f.header == (WgtHeader {
                    unknown_04: data@[4],
                    utility_cheats: data@[6],
                    weapon_cheats: data@[7],
                    game_cheats: data@[8],
                    indestructible_full_wormage: data@[9],
                    unknown_0a: data@[10],
                })
                &&& f.teams@.len() == data@[5]
                &&& forall|i: int|
                    0 <= i < data@[5] ==> team_matches(#[trigger] f.teams@[i], data@, team_start(data@, i as nat))
            }),
    {
        if data.len() < WGT_HEADER_SIZE {
            return Err(WgtError::TooShortHeader { len: data.len() });
        }
        let mut c = Cursor::new(data);
        let magic = match c.read_array::<4>(0) {
            Ok(v) => v,
            Err(e) => return Err(e),
        };
        if !(magic[0] == 0x57 && magic[1] == 0x47 && magic[2] == 0x54 && magic[3] == 0x00) {
            proof {
                assert(magic@ == data@.take(4));
                assert(data@.take(4) != wgt_magic()) by {
                    if data@.take(4) == wgt_magic() {
                        assert(data@.take(4)[0] == 0x57);
                    }
                }
                assert(magic =~= [data@[0], data@[1], data@[2], data@[3]]);
            }
            return Err(WgtError::BadMagic(magic));
        }
        assert(data@.take(4) =~= wgt_magic());
        let unknown_04 = match c.read_u8(0) {
            Ok(v) => v,
            Err(e) => return Err(e),
        };
        let team_count_byte = match c.read_u8(0) {
            Ok(v) => v,
            Err(e) => return Err(e),
        };
        let team_count = team_count_byte as usize;
        let utility_cheats = match c.read_u8(0) {
            Ok(v) => v,
            Err(e) => return Err(e),
        };
        let weapon_cheats = match c.read_u8(0) {
            Ok(v) => v,
            Err(e) => return Err(e),
        };
        let game_cheats = match c.read_u8(0) {
            Ok(v) => v,
            Err(e) => return Err(e),
        };
        let indestructible_full_wormage = match c.read_u8(0) {
            Ok(v) => v,
            Err(e) => return Err(e),
        };
        let unknown_0a = match c.read_u8(0) {
            Ok(v) => v,
            Err(e) => return Err(e),
        };
        let header = WgtHeader {
            unknown_04,
            utility_cheats,
            weapon_cheats,
            game_cheats,
            indestructible_full_wormage,
            unknown_0a,
        };
        let mut teams: Vec<WgtTeam> = Vec::new();
        let mut idx: usize = 0;
        while idx < team_count
            invariant
                c.data@ == data@,
                data@.len() >= 11,
                data@.take(4) == wgt_magic(),
                team_count == data@[5],
                idx <= team_count,
                c.pos == team_start(data@, idx as nat),
                11 <= c.pos <= data@.len(),
                teams_error(data@, 0, team_count as nat) == teams_error(data@, idx as nat, team_count as nat),
                teams@.len() == idx,
                forall|j: int|
                    0 <= j < idx ==> team_matches(#[trigger] teams@[j], data@, team_start(data@, j as nat)),
            decreases team_count - idx,
        {
            let ghost s = c.pos as int;
            let t = match WgtTeam::read(&mut c, idx) {
                Ok(t) => t,
                Err(e) => {
                    proof {
                        assert(team_overflow(data@, s) is Some);
                        assert(teams_error(data@, idx as nat, team_count as nat) == Some(e));
                    }
                    return Err(e);
                },
            };
            proof {
                assert(team_start(data@, (idx + 1) as nat) == team_start(data@, idx as nat)
                    + team_record_len(data@, team_start(data@, idx as nat)));
            }
            teams.push(t);
            idx = idx + 1;
        }
        Ok(WgtFile { header, teams })
    }
}

impl WgtTeam {
    /// Team name decoded from Windows-1252, up to the first NUL.
    pub fn name_str(&self) -> (s: String)
        ensures
            s@ == decode_cstr_spec(self.name@),
    {
        decode_cstr(self.name.as_slice())
    }

    /// Soundbank name decoded from Windows-1252, up to the first NUL.
    pub fn soundbank_str(&self) -> (s: String)
        ensures
            s@ == decode_cstr_spec(self.soundbank_name@),
    {
        decode_cstr(self.soundbank_name.as_slice())
    }

    /// Fanfare name decoded from Windows-1252, up to the first NUL.
    pub fn fanfare_str(&self) -> (s: String)
        ensures
            s@ == decode_cstr_spec(self.fanfare_name@),
    {
        decode_cstr(self.fanfare_name.as_slice())
    }

    /// Flag file name decoded from Windows-1252, up to the first NUL.
    pub fn flag_filename_str(&self) -> (s: String)
        ensures
            s@ == decode_cstr_spec(self.flag.filename@),
    {
        decode_cstr(self.flag.filename.as_slice())
    }

    /// All eight worm-name slots, in order, each decoded from Windows-1252
    /// up to its first NUL (an empty slot gives an empty string).
    pub fn worm_names_iter(&self) -> (v: Vec<String>)
        ensures
            v@.len() == 8,
            forall|i: int| 0 <= i < 8 ==> (#[trigger] v@[i])@ == decode_cstr_spec(self.worm_names@[i]@),
    {
        let mut v: Vec<String> = Vec::new();
        let mut i: usize = 0;
        while i < 8
            invariant
                i <= 8,
                v@.len() == i,
                forall|k: int| 0 <= k < i ==> (#[trigger] v@[k])@ == decode_cstr_spec(self.worm_names@[k]@),
            decreases 8 - i,
        {
            let s = decode_cstr(self.worm_names[i].as_slice());
            v.push(s);
            i = i + 1;
        }
        v
    }
}

} // verus!
