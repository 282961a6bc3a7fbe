//! Subtitle documents that the converters of `oxideav-subtitle` cannot be trusted to read.
//!
//! The WebVTT and TTML readers of that crate panic, or run out of stack, on some inputs:
//! - they slice colour values (`#` and three, six or eight bytes) and the fraction of a clock
//!   time (at most six characters, padded by `6 - len` bytes) at byte offsets, which fails inside
//!   a non-ASCII character;
//! - they compute times in microseconds in `i64`, multiplying the hours by 3 600 000 000 and
//!   adding times together, which overflows for large values (also for floating-point values,
//!   which saturate when converted, and for times divided by a small frame or tick rate);
//! - they recurse once per nesting level of tags or elements (and, in TTML, once per comment
//!   that directly follows another).
//!
//! The scans below read the raw bytes of a document once, as a state machine, and flag every
//! document on which one of these can happen, and some more (the rules are simple
//! over-approximations, described on each field of the scanner's state). Documents with a UTF-16
//! byte order mark, which the readers decode before reading, are flagged too.

use vstd::prelude::*;

verus! {

/// The bytes start with a UTF-16 byte order mark.
pub open spec fn utf16_bom(b: Seq<u8>) -> bool {
    b.len() >= 2 && ((b[0] == 0xFFu8 && b[1] == 0xFEu8) || (b[0] == 0xFEu8 && b[1] == 0xFFu8))
}

fn has_utf16_bom(b: &[u8]) -> (r: bool)
    ensures
        r == utf16_bom(b@),
{
    b.len() >= 2 && ((b[0] == 0xFFu8 && b[1] == 0xFEu8) || (b[0] == 0xFEu8 && b[1] == 0xFFu8))
}

pub open spec fn is_digit(x: u8) -> bool {
    48u8 <= x <= 57u8
}

// ---------------------------------------------------------------------------------------------
// WebVTT

/// What the WebVTT scan remembers after each byte.
#[derive(Debug, Clone, Copy, PartialEq, Eq, Structural)]
pub struct VttScan {
    /// A `{` has been met with no `}` after it (a CSS rule body of a STYLE block).
    pub brace: bool,
    /// Inside such a body, a `#` has been met with no `;` or `}` after it: a colour value, in
    /// which a non-ASCII byte is flagged.
    pub hash: bool,
    /// The length of the current run of ASCII digits, counted up to 7: a run of seven or more
    /// digits followed by `:` is an hours field that may overflow, and is flagged.
    pub digits: u8,
    /// The number of `<` since the last blank line (`\n\n` or `\n\r\n`), counted up to 64: a
    /// cue's tags nest at most that deep; a 65th `<` in a block is flagged.
    pub tags: u8,
    /// 1 after `\n`, 2 after `\n\r`, 0 otherwise.
    pub newline: u8,
    /// Something was flagged.
    pub flagged: bool,
}

pub open spec fn vtt_start() -> VttScan {
    VttScan { brace: false, hash: false, digits: 0, tags: 0, newline: 0, flagged: false }
}

/// The state after one more byte.
pub open spec fn vtt_step(s: VttScan, x: u8) -> VttScan {
    VttScan {
        brace: x == 123u8 || (s.brace && x != 125u8),
        hash: (x == 35u8 && s.brace) || (s.hash && x != 125u8 && x != 59u8),
        digits: if is_digit(x) {
            if s.digits >= 7 {
                7u8
            } else {
                (s.digits + 1) as u8
            }
        } else {
            0u8
        },
        tags: if x == 60u8 {
            if s.tags >= 64 {
                64u8
            } else {
                (s.tags + 1) as u8
            }
        } else if x == 10u8 && s.newline != 0 {
            0u8
        } else {
            s.tags
        },
        newline: if x == 10u8 {
            1u8
        } else if x == 13u8 && s.newline == 1 {
            2u8
        } else {
            0u8
        },
        flagged: s.flagged || (x >= 128u8 && s.hash) || (x == 58u8 && s.digits >= 7) || (x == 60u8 && s.tags
            >= 64),
    }
}

fn vtt_step_exec(s: VttScan, x: u8) -> (r: VttScan)
    ensures
        r == vtt_step(s, x),
{
    VttScan {
        brace: x == 123u8 || (s.brace && x != 125u8),
        hash: (x == 35u8 && s.brace) || (s.hash && x != 125u8 && x != 59u8),
        digits: if 48u8 <= x && x <= 57u8 {
            if s.digits >= 7 {
                7u8
            } else {
                s.digits + 1
            }
        } else {
            0u8
        },
        tags: if x == 60u8 {
            if s.tags >= 64 {
                64u8
            } else {
                s.tags + 1
            }
        } else if x == 10u8 && s.newline != 0 {
            0u8
        } else {
            s.tags
        },
        newline: if x == 10u8 {
            1u8
        } else if x == 13u8 && s.newline == 1 {
            2u8
        } else {
            0u8
        },
        flagged: s.flagged || (x >= 128u8 && s.hash) || (x == 58u8 && s.digits >= 7) || (x == 60u8 && s.tags
            >= 64),
    }
}

/// The state after the first `n` bytes.
pub open spec fn vtt_scan(b: Seq<u8>, n: int) -> VttScan
    decreases n,
{
    if n <= 0 {
        vtt_start()
    } else {
        vtt_step(vtt_scan(b, n - 1), b[n - 1])
    }
}

/// A WebVTT document that the converter may not read safely.
pub open spec fn vtt_conversion_hazard(b: Seq<u8>) -> bool {
    utf16_bom(b) || vtt_scan(b, b.len() as int).flagged
}

/// Whether a WebVTT document may not be read safely by the converter.
pub fn vtt_hazard_check(b: &[u8]) -> (r: bool)
    ensures
        r == vtt_conversion_hazard(b@),
{
    if has_utf16_bom(b) {
        return true;
    }
    let mut s = VttScan { brace: false, hash: false, digits: 0, tags: 0, newline: 0, flagged: false };
    let mut i: usize = 0;
    while i < b.len()
        invariant
            i <= b.len(),
            s == vtt_scan(b@, i as int),
        decreases b.len() - i,
    {
        s = vtt_step_exec(s, b[i]);
        i = i + 1;
    }
    s.flagged
}

// ---------------------------------------------------------------------------------------------
// TTML

/// White space between the parts of an XML tag.
pub open spec fn xml_ws(x: u8) -> bool {
    x == 32u8 || x == 9u8 || x == 10u8 || x == 13u8
}

/// What ends an unquoted attribute value: white space, `>` or `/`.
pub open spec fn ends_unquoted(x: u8) -> bool {
    xml_ws(x) || x == 62u8 || x == 47u8
}

/// The bytes of "frameRate".
pub open spec fn frame_rate_byte(i: u8) -> u8 {
    if i == 0 { 102u8 } else if i == 1 { 114u8 } else if i == 2 { 97u8 } else if i == 3 { 109u8 } else if i == 4 {
        101u8
    } else if i == 5 { 82u8 } else if i == 6 { 97u8 } else if i == 7 { 116u8 } else { 101u8 }
}

/// The bytes of "kRate" (the end of "tickRate").
pub open spec fn k_rate_byte(i: u8) -> u8 {
    if i == 0 { 107u8 } else if i == 1 { 82u8 } else if i == 2 { 97u8 } else if i == 3 { 116u8 } else { 101u8 }
}

/// The bytes of a UTF-8 byte order mark.
pub open spec fn bom_byte(i: u8) -> u8 {
    if i == 0 { 0xEFu8 } else if i == 1 { 0xBBu8 } else { 0xBFu8 }
}

/// The budget of microseconds that the digit runs of attribute values may add up to: below
/// `i64::MAX`, so that no sum of times overflows. A run of `len` digits counts for
/// (10^len + 1) × 3 600 000 000, the most it can bring to a time (as hours, the largest unit).
pub open spec fn time_budget() -> nat {
    9_000_000_000_000_000_000
}

/// What the TTML scan remembers after each byte.
#[derive(Debug, Clone, Copy, PartialEq, Eq, Structural)]
pub struct TtmlScan {
    /// The number of bytes read, counted up to 4.
    pub pos: u8,
    /// How many of the first bytes are those of a UTF-8 byte order mark (up to 3).
    pub bom: u8,
    /// The previous byte is a `<` at the start of the document (after a UTF-8 byte order mark).
    pub lt_start: bool,
    /// Inside the processing instruction that opens the document (up to `?>`), which is skipped.
    pub in_pi: bool,
    /// The previous byte, inside that instruction, is `?`.
    pub pi_q: bool,
    /// The previous byte is a `<` (outside that instruction).
    pub prev_lt: bool,
    /// That `<` may not be inside an attribute value.
    pub lt_outside: bool,
    /// The last bytes are `=` and white space.
    pub eq: bool,
    /// A value in double quotes (opened after `=` and white space) may be open.
    pub dq: bool,
    /// A value in single quotes may be open.
    pub sq: bool,
    /// An unquoted value (after `=` and white space) may be open.
    pub unq: bool,
    /// The length of the current run of digits inside a value (up to 9; a tenth is flagged).
    pub run: u8,
    /// 10 to the power `run` (the runs that matter have at most nine digits).
    pub pow: u64,
    /// The sum, over the digit runs of values so far, of (10^len + 1) × 3 600 000 000: the most
    /// that these runs can bring to all times together; beyond `time_budget` it is flagged.
    pub budget: u64,
    /// The previous byte, inside a value, is a digit or `.`.
    pub prev_num: bool,
    /// The previous byte, inside a value, is `e` or `E` after a digit or `.`: a digit or a sign
    /// after it (a floating-point exponent) is flagged, as is "inf" inside a value; these are
    /// the floating-point forms of unbounded magnitude.
    pub exp: bool,
    /// How much of "inf" (either case) has just been read inside a value.
    pub inf: u8,
    /// How much of "frameRate" has just been read (a frame rate is flagged).
    pub fr: u8,
    /// How much of "kRate" has just been read (a tick rate is flagged).
    pub kr: u8,
    /// An upper bound on the nesting depth of elements: +1 at each `<` not followed by `/`, `!`
    /// or `?`; -1 at each `</` whose `<` is outside values, and at each `/>` that ends a start
    /// tag; never below 0, and flagged above 64. (`<!` is flagged, and `<?` except at the
    /// start, so that no comment, CDATA section or declaration hides a `</`.)
    pub depth: u8,
    /// A start tag may be open (a `<` followed by its name, and no `>` outside values since).
    pub tag_open: bool,
    /// The previous byte is a `/` outside values in an open start tag.
    pub slash: bool,
    /// Something was flagged.
    pub flagged: bool,
}

pub open spec fn ttml_start() -> TtmlScan {
    TtmlScan {
        pos: 0,
        bom: 0,
        lt_start: false,
        in_pi: false,
        pi_q: false,
        prev_lt: false,
        lt_outside: false,
        eq: false,
        dq: false,
        sq: false,
        unq: false,
        run: 0,
        pow: 1,
        budget: 0,
        prev_num: false,
        exp: false,
        inf: 0,
        fr: 0,
        kr: 0,
        depth: 0,
        tag_open: false,
        slash: false,
        flagged: false,
    }
}

/// The state after one more byte.
pub open spec fn ttml_step(s: TtmlScan, x: u8) -> TtmlScan {
    let pos: u8 = if s.pos >= 4 { 4 } else { (s.pos + 1) as u8 };
    let bom: u8 = if s.pos == s.bom && s.bom < 3 && x == bom_byte(s.bom) { (s.bom + 1) as u8 } else { s.bom };
    if s.in_pi {
        TtmlScan { pos, bom, in_pi: !(s.pi_q && x == 62u8), pi_q: x == 63u8, lt_start: false, prev_lt: false, ..s }
    } else {
        let at_start = s.pos == 0 || (s.pos == 3 && s.bom == 3);
        let ws = xml_ws(x);
        let unq = (s.eq && !ws && x != 34u8 && x != 39u8) || (s.unq && !ends_unquoted(x));
        let inside = (s.dq && x != 34u8) || (s.sq && x != 39u8) || unq;
        let digit = is_digit(x);
        let run_flag = inside && digit && s.run >= 9;
        let inc: nat = if inside && digit && s.run < 9 {
            if s.run == 0 { 11 * 3_600_000_000 } else { 9 * (if s.pow > 100_000_000 { 100_000_000 } else { s.pow as nat }) * 3_600_000_000 }
        } else {
            0
        };
        let total: nat = s.budget as nat + inc;
        let budget: u64 = if total > time_budget() { (time_budget() + 1) as u64 } else { total as u64 };
        let opened = s.prev_lt && x != 47u8 && x != 33u8 && x != 63u8;
        let closed = s.prev_lt && x == 47u8 && s.lt_outside;
        let self_closed = s.slash && x == 62u8;
        let up: int = if opened { s.depth + 1 } else { s.depth as int };
        let down: int = if (closed || self_closed) && up > 0 { up - 1 } else { up };
        let fr: u8 = if x == frame_rate_byte(s.fr) { (s.fr + 1) as u8 } else if x == 102u8 { 1 } else { 0 };
        let kr: u8 = if x == k_rate_byte(s.kr) { (s.kr + 1) as u8 } else if x == 107u8 { 1 } else { 0 };
        TtmlScan {
            pos,
            bom,
            lt_start: x == 60u8 && at_start,
            in_pi: s.prev_lt && x == 63u8 && s.lt_start,
            pi_q: false,
            prev_lt: x == 60u8,
            lt_outside: x == 60u8 && !inside,
            eq: x == 61u8 || (ws && s.eq),
            dq: (x == 34u8 && s.eq) || (s.dq && x != 34u8),
            sq: (x == 39u8 && s.eq) || (s.sq && x != 39u8),
            unq,
            run: if inside && digit { if s.run >= 9 { 9 } else { (s.run + 1) as u8 } } else { 0 },
            pow: if inside && digit { if s.pow >= 100_000_000 { 1_000_000_000u64 } else { (s.pow * 10) as u64 } } else { 1 },
            budget,
            prev_num: inside && (digit || x == 46u8),
            exp: inside && (x == 101u8 || x == 69u8) && s.prev_num,
            inf: if inside && (x == 105u8 || x == 73u8) { 1 } else if inside && s.inf == 1 && (x == 110u8 || x
                == 78u8) { 2 } else { 0 },
            fr: if fr >= 9 { 9 } else { fr },
            kr: if kr >= 5 { 5 } else { kr },
            depth: if down > 65 { 65 } else { down as u8 },
            tag_open: if opened { true } else if (x == 62u8 && !inside) || (s.prev_lt && x == 47u8) { false } else {
                s.tag_open
            },
            slash: x == 47u8 && !inside && s.tag_open && !s.prev_lt,
            flagged: s.flagged || (inside && (x >= 128u8 || x == 38u8)) || (inside && s.exp && (digit || x == 43u8 || x == 45u8)) || (inside && s.inf == 2 && (x == 102u8 || x == 70u8)) || run_flag || total
                > time_budget() || fr >= 9 || kr >= 5 || (s.prev_lt && x == 33u8) || (s.prev_lt && x == 63u8
                && !s.lt_start) || up > 64,
        }
    }
}

#[verifier::rlimit(60)]
#[verifier::spinoff_prover]
fn ttml_step_exec(s: TtmlScan, x: u8) -> (r: TtmlScan)
    requires
        s.pow <= 1_000_000_000,
        s.budget <= 9_000_000_000_000_000_001,
        s.fr <= 8,
        s.kr <= 4,
        s.bom <= 3,
        s.depth <= 65,
    ensures
        r == ttml_step(s, x),
        r.pow <= 1_000_000_000,
        r.budget <= 9_000_000_000_000_000_001,
        !r.flagged ==> r.fr <= 8 && r.kr <= 4,
        r.fr <= 9,
        r.kr <= 5,
        r.bom <= 3,
        r.depth <= 65,
{
    let pos: u8 = if s.pos >= 4 { 4 } else { s.pos + 1 };
    let bb: u8 = if s.bom == 0 { 0xEFu8 } else if s.bom == 1 { 0xBBu8 } else { 0xBFu8 };
    let bom: u8 = if s.pos == s.bom && s.bom < 3 && x == bb { s.bom + 1 } else { s.bom };
    if s.in_pi {
        return TtmlScan { pos, bom, in_pi: !(s.pi_q && x == 62u8), pi_q: x == 63u8, lt_start: false, prev_lt: false, ..s };
    }
    let at_start = s.pos == 0 || (s.pos == 3 && s.bom == 3);
    let ws = x == 32u8 || x == 9u8 || x == 10u8 || x == 13u8;
    let unq = (s.eq && !ws && x != 34u8 && x != 39u8) || (s.unq && !(ws || x == 62u8 || x == 47u8));
    let inside = (s.dq && x != 34u8) || (s.sq && x != 39u8) || unq;
    let digit = 48u8 <= x && x <= 57u8;
    let run_flag = inside && digit && s.run >= 9;
    let p: u64 = if s.pow > 100_000_000 { 100_000_000 } else { s.pow };
    assert(9 * p * 3_600_000_000 <= 3_240_000_000_000_000_000) by (nonlinear_arith)
        requires
            p <= 100_000_000,
    ;
    let inc: u64 = if inside && digit && s.run < 9 {
        if s.run == 0 { 11 * 3_600_000_000 } else { 9 * p * 3_600_000_000 }
    } else {
        0
    };
    let total: u64 = s.budget + inc;
    let over = total > 9_000_000_000_000_000_000;
    let budget: u64 = if over { 9_000_000_000_000_000_001 } else { total };
    let opened = s.prev_lt && x != 47u8 && x != 33u8 && x != 63u8;
    let closed = s.prev_lt && x == 47u8 && s.lt_outside;
    let self_closed = s.slash && x == 62u8;
    let up: u8 = if opened { s.depth + 1 } else { s.depth };
    let down: u8 = if (closed || self_closed) && up > 0 { up - 1 } else { up };
    let fb: u8 = if s.fr == 0 { 102u8 } else if s.fr == 1 { 114u8 } else if s.fr == 2 { 97u8 } else if s.fr == 3 {
        109u8
    } else if s.fr == 4 { 101u8 } else if s.fr == 5 { 82u8 } else if s.fr == 6 { 97u8 } else if s.fr == 7 {
        116u8
    } else { 101u8 };
    let kb: u8 = if s.kr == 0 { 107u8 } else if s.kr == 1 { 82u8 } else if s.kr == 2 { 97u8 } else if s.kr == 3 {
        116u8
    } else { 101u8 };
    let fr: u8 = if x == fb { s.fr + 1 } else if x == 102u8 { 1 } else { 0 };
    let kr: u8 = if x == kb { s.kr + 1 } else if x == 107u8 { 1 } else { 0 };
    let run: u8 = if inside && digit { if s.run >= 9 { 9 } else { s.run + 1 } } else { 0 };
    let pow: u64 = if inside && digit { if s.pow >= 100_000_000 { 1_000_000_000 } else { s.pow * 10 } } else { 1 };
    TtmlScan {
        pos,
        bom,
        lt_start: x == 60u8 && at_start,
        in_pi: s.prev_lt && x == 63u8 && s.lt_start,
        pi_q: false,
        prev_lt: x == 60u8,
        lt_outside: x == 60u8 && !inside,
        eq: x == 61u8 || (ws && s.eq),
        dq: (x == 34u8 && s.eq) || (s.dq && x != 34u8),
        sq: (x == 39u8 && s.eq) || (s.sq && x != 39u8),
        unq,
        run,
        pow,
        budget,
        prev_num: inside && (digit || x == 46u8),
        exp: inside && (x == 101u8 || x == 69u8) && s.prev_num,
        inf: if inside && (x == 105u8 || x == 73u8) { 1 } else if inside && s.inf == 1 && (x == 110u8 || x == 78u8) {
            2
        } else { 0 },
        fr: if fr >= 9 { 9 } else { fr },
        kr: if kr >= 5 { 5 } else { kr },
        depth: if down > 65 { 65 } else { down },
        tag_open: if opened { true } else if (x == 62u8 && !inside) || (s.prev_lt && x == 47u8) { false } else {
            s.tag_open
        },
        slash: x == 47u8 && !inside && s.tag_open && !s.prev_lt,
        flagged: s.flagged || (inside && (x >= 128u8 || x == 38u8)) || (inside && s.exp && (digit || x == 43u8 || x == 45u8)) || (inside && s.inf == 2 && (x == 102u8 || x == 70u8)) || run_flag || over || fr >= 9
            || kr >= 5 || (s.prev_lt && x == 33u8) || (s.prev_lt && x == 63u8 && !s.lt_start) || up > 64,
    }
}

/// The state after the first `n` bytes.
pub open spec fn ttml_scan(b: Seq<u8>, n: int) -> TtmlScan
    decreases n,
{
    if n <= 0 {
        ttml_start()
    } else {
        ttml_step(ttml_scan(b, n - 1), b[n - 1])
    }
}

/// A TTML document that the converter may not read safely.
pub open spec fn ttml_conversion_hazard(b: Seq<u8>) -> bool {
    utf16_bom(b) || ttml_scan(b, b.len() as int).flagged
}

/// Whether a TTML document may not be read safely by the converter.
pub fn ttml_hazard_check(b: &[u8]) -> (r: bool)
    ensures
        r == ttml_conversion_hazard(b@),
{
    if has_utf16_bom(b) {
        return true;
    }
    let mut s = TtmlScan {
        pos: 0,
        bom: 0,
        lt_start: false,
        in_pi: false,
        pi_q: false,
        prev_lt: false,
        lt_outside: false,
        eq: false,
        dq: false,
        sq: false,
        unq: false,
        run: 0,
        pow: 1,
        budget: 0,
        prev_num: false,
        exp: false,
        inf: 0,
        fr: 0,
        kr: 0,
        depth: 0,
        tag_open: false,
        slash: false,
        flagged: false,
    };
    let mut i: usize = 0;
    while i < b.len()
        invariant
            i <= b.len(),
            s == ttml_scan(b@, i as int),
            !s.flagged,
            s.pow <= 1_000_000_000,
            s.budget <= 9_000_000_000_000_000_001,
            s.fr <= 8,
            s.kr <= 4,
            s.bom <= 3,
            s.depth <= 65,
        decreases b.len() - i,
    {
        let n = ttml_step_exec(s, b[i]);
        if n.flagged {
            proof {
                lemma_ttml_flag_sticks(b@, i as int + 1);
            }
            return true;
        }
        s = n;
        i = i + 1;
    }
    false
}

/// Once flagged, a TTML scan stays flagged.
proof fn lemma_ttml_flag_sticks(b: Seq<u8>, n: int)
    requires
        0 <= n <= b.len(),
        ttml_scan(b, n).flagged,
    ensures
        ttml_scan(b, b.len() as int).flagged,
    decreases b.len() - n,
{
    if n < b.len() {
        assert(ttml_scan(b, n + 1) == ttml_step(ttml_scan(b, n), b[n]));
        lemma_ttml_flag_sticks(b, n + 1);
    }
}

} // verus!
