//! Text for the screen: display widths, counts, durations, dates, and the
//! scrolling window that shows a long title in a narrow column.
use vstd::prelude::*;
use unicode_width::{UnicodeWidthChar, UnicodeWidthStr};
use crate::state::{category_label, sort_label, Category, Sort};
use crate::text::{chars_of, padded, push_char, spec_padded};

verus! {

/// The number of terminal columns a string takes.
pub uninterp spec fn str_width(s: Seq<char>) -> usize;

/// The number of terminal columns a character takes; `None` for a control
/// character.
pub uninterp spec fn char_width(c: char) -> Option<usize>;

/// Every character of `s` is printable ASCII (space to `~`).
pub open spec fn printable_ascii(s: Seq<char>) -> bool {
    forall|i: int| 0 <= i < s.len() ==> ' ' <= #[trigger] s[i] && s[i] <= '~'
}

/// How many columns `s` takes on screen.
///
/// Trusted: calls `unicode_width::UnicodeWidthStr::width`, which depends on
/// the string alone; the contract names the result, and states what the
/// source shows of printable ASCII text: each character takes one column
/// (`width_in_generic` gives 1 to every character up to U+00A0 but a `\r`
/// before a `\n`, and keeps the default state).
#[verifier::external_body]
pub fn display_width(s: &str) -> (w: usize)
    ensures
        w == str_width(s@),
        printable_ascii(s@) ==> w == s@.len(),
{
    s.width()
}

/// Trusted: calls `unicode_width::UnicodeWidthChar::width`, which depends on
/// the character alone; the contract names the result, and states what the
/// source (`single_char_width_generic`) shows: printable ASCII takes one
/// column, and the other characters below U+0020 or from U+007F to U+009F
/// are control characters.
#[verifier::external_body]
fn unicode_char_width(c: char) -> (w: Option<usize>)
    ensures
        w == char_width(c),
        ' ' <= c && c <= '~' ==> w == Some(1usize),
        (c < ' ' || ('\u{7F}' <= c && c < '\u{A0}')) ==> w is None,
{
    c.width()
}

/// The suffix that makes a noun plural for `count`: nothing for one.
pub fn plural<'a>(count: usize, suffix: &'a str) -> (s: &'a str)
    ensures
        count == 1 ==> s@ == ""@,
        count != 1 ==> s == suffix,
{
    if count == 1 {
        ""
    } else {
        suffix
    }
}

/// A duration as minutes and seconds, each at least two digits: "MM:SS".
pub open spec fn spec_duration_text(secs: nat) -> Seq<char> {
    spec_padded(secs / 60, 2) + ":"@ + spec_padded(secs % 60, 2)
}

/// A play time given in nanoseconds, as "MM:SS" of whole seconds.
pub fn format_duration(nanos: u128) -> (s: String)
    requires
        nanos / 1_000_000_000 <= u64::MAX,
    ensures
        s@ == spec_duration_text((nanos / 1_000_000_000) as nat),
{
    let total: u64 = (nanos / 1_000_000_000) as u64;
    let mut s = padded(total / 60, 2);
    s.append(":");
    let secs = padded(total % 60, 2);
    s.append(secs.as_str());
    s
}

proof fn lemma_year_of_era(doe: u32)
    requires
        doe < 146097,
    ensures
        ({
            let yoe = (doe - doe / 1460 + doe / 36524 - doe / 146096) / 365;
            &&& yoe < 400
            &&& 365 * yoe + yoe / 4 - yoe / 100 <= doe
            &&& doe - (365 * yoe + yoe / 4 - yoe / 100) <= 365
        }),
{
    assert(doe < 146097 ==> ({
        let yoe = (doe - doe / 1460 + doe / 36524 - doe / 146096) / 365;
        &&& yoe < 400
        &&& 365 * yoe + yoe / 4 - yoe / 100 <= doe
        &&& doe - (365 * yoe + yoe / 4 - yoe / 100) <= 365
    })) by (bit_vector);
}

proof fn lemma_month_of_year(doy: u32)
    requires
        doy <= 365,
    ensures
        ({
            let mp = (5 * doy + 2) / 153;
            &&& mp <= 11
            &&& (153 * mp + 2) / 5 <= doy
            &&& doy - (153 * mp + 2) / 5 + 1 <= 31
        }),
{
    assert(doy <= 365 ==> ({
        let mp = (5 * doy + 2) / 153;
        &&& mp <= 11
        &&& (153 * mp + 2) / 5 <= doy
        &&& doy - (153 * mp + 2) / 5 + 1 <= 31
    })) by (bit_vector);
}

/// The calendar date, as (year, month, day), of the day that starts
/// `secs` seconds after 1970-01-01 (UTC): the civil-from-days conversion
/// of the proleptic Gregorian calendar, counted in eras of 400 years from
/// 0000-03-01.
pub open spec fn civil_from_secs(secs: nat) -> (int, int, int) {
    let z = secs / 86400 + 719468;
    let era = z / 146097;
    let doe = z % 146097;
    let yoe = (doe - doe / 1460 + doe / 36524 - doe / 146096) / 365;
    let y = yoe + era * 400;
    let doy = doe - (365 * yoe + yoe / 4 - yoe / 100);
    let mp = (5 * doy + 2) / 153;
    let d = doy - (153 * mp + 2) / 5 + 1;
    let m = if mp < 10 { mp + 3 } else { mp - 9 };
    (if m <= 2 { y + 1 } else { y }, m, d)
}

/// A modification time as shown in a list: "YYYY-MM-DD", or "unknown" when
/// the time is not known (zero).
pub open spec fn spec_mtime_text(secs: nat) -> Seq<char> {
    if secs == 0 {
        "unknown"@
    } else {
        let (y, m, d) = civil_from_secs(secs);
        spec_padded(y as nat, 4) + "-"@ + spec_padded(m as nat, 2) + "-"@ + spec_padded(d as nat, 2)
    }
}

/// A modification time, in seconds since 1970 (UTC), as a date
/// "YYYY-MM-DD"; zero means unknown.
pub fn format_mtime(mtime_secs: u64) -> (s: String)
    ensures
        s@ == spec_mtime_text(mtime_secs as nat),
{
    if mtime_secs == 0 {
        return String::from_str("unknown");
    }
    let days: u64 = mtime_secs / 86400;
    let z: u64 = days + 719468;
    let era: u64 = z / 146097;
    let doe: u64 = z % 146097;
    proof {
        lemma_year_of_era(doe as u32);
    }
    let yoe: u64 = (doe - doe / 1460 + doe / 36524 - doe / 146096) / 365;
    let y: u64 = yoe + era * 400;
    let doy: u64 = doe - (365 * yoe + yoe / 4 - yoe / 100);
    proof {
        lemma_month_of_year(doy as u32);
    }
    let mp: u64 = (5 * doy + 2) / 153;
    let d: u64 = doy - (153 * mp + 2) / 5 + 1;
    let m: u64 = if mp < 10 { mp + 3 } else { mp - 9 };
    let year: u64 = if m <= 2 { y + 1 } else { y };
    let mut s = padded(year, 4);
    s.append("-");
    let ms = padded(m, 2);
    s.append(ms.as_str());
    s.append("-");
    let ds = padded(d, 2);
    s.append(ds.as_str());
    s
}

/// Law: a known modification time shows a month from 1 to 12 and a day from
/// 1 to 31.
pub proof fn law_mtime_date_in_range(secs: nat)
    ensures
        1 <= civil_from_secs(secs).1 <= 12,
        1 <= civil_from_secs(secs).2 <= 31,
{
    let z = secs / 86400 + 719468;
    let doe = z % 146097;
    lemma_year_of_era(doe as u32);
    let yoe = (doe - doe / 1460 + doe / 36524 - doe / 146096) / 365;
    let doy = doe - (365 * yoe + yoe / 4 - yoe / 100);
    lemma_month_of_year(doy as u32);
}

/// The columns a character takes, a control character counting as none.
pub open spec fn cols(c: char) -> nat {
    match char_width(c) {
        Some(w) => w as nat,
        None => 0,
    }
}

/// The columns a run of characters takes, character by character.
pub open spec fn cols_sum(s: Seq<char>) -> nat
    decreases s.len(),
{
    if s.len() == 0 {
        0
    } else {
        cols_sum(s.drop_last()) + cols(s.last())
    }
}

/// How many characters of `s`, from position `i` with `used` columns already
/// filled, fit in `budget` columns when they are taken in order until the
/// next one would not fit (or, when `stop_full` holds, until the budget is
/// filled).
pub open spec fn fit_count(s: Seq<char>, budget: nat, stop_full: bool, i: int, used: nat) -> int
    decreases s.len() - i,
{
    if i < 0 || i >= s.len() || (stop_full && used >= budget) {
        i
    } else if used + cols(s[i]) > budget {
        i
    } else {
        fit_count(s, budget, stop_full, i + 1, used + cols(s[i]))
    }
}

proof fn lemma_fit_count(s: Seq<char>, budget: nat, stop_full: bool, i: int, used: nat)
    requires
        0 <= i <= s.len(),
        used == cols_sum(s.take(i)),
        used <= budget,
    ensures
        i <= fit_count(s, budget, stop_full, i, used) <= s.len(),
        cols_sum(s.take(fit_count(s, budget, stop_full, i, used))) <= budget,
    decreases s.len() - i,
{
    if i < s.len() && !(stop_full && used >= budget) && used + cols(s[i]) <= budget {
        assert(s.take(i + 1).drop_last() =~= s.take(i));
        lemma_fit_count(s, budget, stop_full, i + 1, used + cols(s[i]));
    }
}

fn columns_of(c: char) -> (w: usize)
    ensures
        w == cols(c),
{
    match unicode_char_width(c) {
        Some(w) => w,
        None => 0,
    }
}

/// How many leading characters of `s` fit in `budget` columns.
fn fit_prefix(s: &Vec<char>, budget: usize, stop_full: bool) -> (n: usize)
    ensures
        n == fit_count(s@, budget as nat, stop_full, 0, 0),
        n <= s@.len(),
        cols_sum(s@.take(n as int)) <= budget,
{
    let mut i: usize = 0;
    let mut used: usize = 0;
    proof {
        assert(s@.take(0) =~= Seq::<char>::empty());
        lemma_fit_count(s@, budget as nat, stop_full, 0, 0);
    }
    while i < s.len()
        invariant
            i <= s@.len(),
            used == cols_sum(s@.take(i as int)),
            used <= budget,
            fit_count(s@, budget as nat, stop_full, 0, 0) == fit_count(s@, budget as nat, stop_full, i as int, used as nat),
        decreases s@.len() - i,
    {
        if stop_full && used >= budget {
            return i;
        }
        let w = columns_of(s[i]);
        if w > budget - used {
            return i;
        }
        proof {
            assert(s@.take(i as int + 1).drop_last() =~= s@.take(i as int));
        }
        used = used + w;
        i = i + 1;
    }
    i
}

/// The first `n` characters of `s` as a `String`.
fn prefix_string(s: &Vec<char>, n: usize) -> (r: String)
    requires
        n <= s@.len(),
    ensures
        r@ == s@.take(n as int),
{
    let mut r = String::new();
    let mut i: usize = 0;
    while i < n
        invariant
            n <= s@.len(),
            i <= n,
            r@ == s@.take(i as int),
        decreases n - i,
    {
        push_char(&mut r, s[i]);
        i = i + 1;
        proof {
            assert(r@ =~= s@.take(i as int));
        }
    }
    r
}

/// How long the marquee rests at the start before it scrolls, in
/// milliseconds.
pub const MARQUEE_PAUSE_MS: u128 = 4500;

/// How long the marquee shows each position while it scrolls, in
/// milliseconds.
pub const MARQUEE_STEP_MS: u128 = 150;

/// The number of blank columns between the end of a scrolling text and its
/// start.
pub const MARQUEE_GAP_LEN: usize = 4;

/// Where the scrolling text starts at time `now_ms`: at its first
/// character while the marquee rests, then one character further each step,
/// around the text followed by the gap.
pub open spec fn marquee_offset(len: nat, now_ms: nat) -> int {
    let loop_len: int = len + MARQUEE_GAP_LEN;
    let pause: int = MARQUEE_PAUSE_MS as int;
    let step: int = MARQUEE_STEP_MS as int;
    let cycle: int = pause + loop_len * step;
    let phase: int = now_ms as int % cycle;
    if phase < pause { 0 } else { ((phase - pause) / step) % loop_len }
}

/// The text followed by the gap, read around from `offset`, one character
/// longer than a full turn.
pub open spec fn marquee_ring(s: Seq<char>, offset: int) -> Seq<char> {
    let loop_len = s.len() + MARQUEE_GAP_LEN;
    Seq::new((loop_len + 1) as nat, |k: int| {
        let idx = (offset + k) % (loop_len as int);
        if idx < s.len() { s[idx] } else { ' ' }
    })
}

/// The columns the ellipsis takes, one when its width is unknown.
pub open spec fn ellipsis_cols() -> nat {
    match char_width('…') {
        Some(w) => w as nat,
        None => 1,
    }
}

/// What a `width`-column window shows of `text` at time `now_ms`: the text
/// itself when it fits; while the marquee rests, as much of the start as
/// fits before an ellipsis; while it scrolls, the text and a gap read
/// around from the current offset, as much as fits.
pub open spec fn marquee_spec(text: Seq<char>, width: nat, now_ms: nat) -> Seq<char> {
    if width == 0 {
        seq![]
    } else if str_width(text) <= width {
        text
    } else {
        let offset = marquee_offset(text.len(), now_ms);
        if offset == 0 {
            let show = width >= ellipsis_cols();
            let budget: nat = if show { (width - ellipsis_cols()) as nat } else { width };
            let kept = text.take(fit_count(text, budget, false, 0, 0));
            if show { kept.push('…') } else { kept }
        } else {
            let ring = marquee_ring(text, offset);
            ring.take(fit_count(ring, width, true, 0, 0))
        }
    }
}

/// The part of `text` a `visible_width`-column window shows at time
/// `now_ms` (milliseconds on the wall clock).
pub fn marquee_window_at(text: &str, visible_width: usize, now_ms: u128) -> (s: String)
    requires
        2 * (text@.len() + MARQUEE_GAP_LEN) + 1 <= usize::MAX,
    ensures
        s@ == marquee_spec(text@, visible_width as nat, now_ms as nat),
        visible_width > 0 && str_width(text@) > visible_width ==> cols_sum(s@) <= visible_width,
{
    if visible_width == 0 {
        return String::new();
    }
    if display_width(text) <= visible_width {
        return String::from_str(text);
    }
    let chars = chars_of(text);
    let loop_len: usize = chars.len() + MARQUEE_GAP_LEN;
    let cycle_ms: u128 = MARQUEE_PAUSE_MS + (loop_len as u128) * MARQUEE_STEP_MS;
    let phase: u128 = now_ms % cycle_ms;
    let offset: usize = if phase < MARQUEE_PAUSE_MS {
        0
    } else {
        (((phase - MARQUEE_PAUSE_MS) / MARQUEE_STEP_MS) % (loop_len as u128)) as usize
    };
    if offset == 0 {
        let ellipsis_width: usize = match unicode_char_width('…') {
            Some(w) => w,
            None => 1,
        };
        let show = visible_width >= ellipsis_width;
        let budget = if show { visible_width - ellipsis_width } else { visible_width };
        let n = fit_prefix(&chars, budget, false);
        let mut out = prefix_string(&chars, n);
        if show {
            push_char(&mut out, '…');
            proof {
                assert(out@.drop_last() =~= chars@.take(n as int));
            }
        }
        return out;
    }
    let mut ring: Vec<char> = Vec::new();
    let mut k: usize = 0;
    while k <= loop_len
        invariant
            loop_len == chars@.len() + MARQUEE_GAP_LEN,
            2 * loop_len + 1 <= usize::MAX,
            offset < loop_len,
            k <= loop_len + 1,
            ring@ == marquee_ring(chars@, offset as int).take(k as int),
        decreases loop_len + 1 - k,
    {
        let idx = (offset + k) % loop_len;
        let c = if idx < chars.len() { chars[idx] } else { ' ' };
        ring.push(c);
        k = k + 1;
        proof {
            assert(ring@ =~= marquee_ring(chars@, offset as int).take(k as int));
        }
    }
    proof {
        assert(ring@ =~= marquee_ring(chars@, offset as int));
    }
    let n = fit_prefix(&ring, visible_width, true);
    prefix_string(&ring, n)
}

/// The wall-clock time in milliseconds since 1970; `None` when the clock
/// reads earlier.
///
/// Trusted: reads `std::time::SystemTime::now()` and measures it from
/// `UNIX_EPOCH` with `duration_since`, giving `None` for its error; nothing
/// is promised about the value, which the clock decides.
#[verifier::external_body]
fn unix_millis() -> (t: Option<u128>) {
    match std::time::SystemTime::now().duration_since(std::time::UNIX_EPOCH) {
        Ok(d) => Some(d.as_millis()),
        Err(_) => None,
    }
}

/// The wall-clock time in milliseconds since 1970, zero if the clock reads
/// earlier.
pub(crate) fn now_millis() -> (t: u128) {
    match unix_millis() {
        Some(t) => t,
        None => 0,
    }
}

/// Whether a `visible_width`-column window over `text` scrolls, so that the
/// screen changes as time passes: the text is wider than a window that is
/// not empty.
pub fn marquee_scrolls(text: &str, visible_width: usize) -> (b: bool)
    ensures
        b == (visible_width > 0 && str_width(text@) > visible_width),
{
    visible_width > 0 && display_width(text) > visible_width
}

/// The part of `text` a `visible_width`-column window shows now: the text
/// when it fits, else a view that rests on the start (with an ellipsis) and
/// then scrolls around, as `marquee_window_at` gives it for the current
/// time.
pub fn marquee_window(text: &str, visible_width: usize) -> (s: String)
    requires
        2 * (text@.len() + MARQUEE_GAP_LEN) + 1 <= usize::MAX,
    ensures
        exists|t: nat| s@ == #[trigger] marquee_spec(text@, visible_width as nat, t),
        visible_width == 0 ==> s@ == Seq::<char>::empty(),
        visible_width > 0 && str_width(text@) <= visible_width ==> s@ == text@,
        visible_width > 0 && str_width(text@) > visible_width ==> cols_sum(s@) <= visible_width,
{
    let now = now_millis();
    marquee_window_at(text, visible_width, now)
}

/// The widest the category-and-sort title of a panel can be: the fixed text
/// around the two names plus the widest grouping name and the widest sort
/// name.
pub open spec fn spec_sort_label_width() -> int {
    str_width(" <o> group:   <p> sort:  "@) + max_of(seq![
        str_width(category_label(Category::Flat)), str_width(category_label(Category::Artist)),
        str_width(category_label(Category::Path)),
    ]) + max_of(seq![
        str_width(sort_label(Sort::Title)), str_width(sort_label(Sort::Duration)), str_width(sort_label(Sort::Artist)),
        str_width(sort_label(Sort::Path)), str_width(sort_label(Sort::DateModified)),
    ])
}

/// The largest of some widths, 0 for none.
pub open spec fn max_of(s: Seq<usize>) -> int
    decreases s.len(),
{
    if s.len() == 0 {
        0
    } else {
        let m = max_of(s.drop_last());
        if s.last() as int > m { s.last() as int } else { m }
    }
}

fn max_width(v: &Vec<usize>) -> (m: usize)
    ensures
        m == max_of(v@),
{
    let mut m: usize = 0;
    let mut i: usize = 0;
    while i < v.len()
        invariant
            i <= v@.len(),
            m == max_of(v@.take(i as int)),
        decreases v@.len() - i,
    {
        proof {
            assert(v@.take(i as int + 1).drop_last() =~= v@.take(i as int));
        }
        if v[i] > m {
            m = v[i];
        }
        i = i + 1;
    }
    proof {
        assert(v@.take(v@.len() as int) =~= v@);
    }
    m
}

/// Joining two printable ASCII strings gives a printable ASCII string.
proof fn lemma_printable_concat(a: Seq<char>, b: Seq<char>)
    requires
        printable_ascii(a),
        printable_ascii(b),
    ensures
        printable_ascii(a + b),
{
    assert forall|i: int| 0 <= i < (a + b).len() implies ' ' <= #[trigger] (a + b)[i] && (a + b)[i] <= '~' by {
        if i >= a.len() {
            assert((a + b)[i] == b[i - a.len()]);
        }
    }
}

/// The grouping and sort names are printable ASCII, at most `artist` and
/// `date modified` long.
proof fn lemma_labels_printable(c: Category, s: Sort)
    ensures
        printable_ascii(category_label(c)),
        printable_ascii(sort_label(s)),
        category_label(c).len() <= 6,
        sort_label(s).len() <= 13,
{
    reveal_strlit("none");
    reveal_strlit("artist");
    reveal_strlit("path");
    reveal_strlit("title");
    reveal_strlit("duration");
    reveal_strlit("date modified");
}

/// The text of a category-and-sort title around the two names.
pub open spec fn sort_title_text(category_label: Seq<char>, sort_label: Seq<char>) -> Seq<char> {
    " <o> group: "@ + category_label + "  <p> sort: "@ + sort_label + " "@
}

/// The widest the category-and-sort title of a panel can be, so that the
/// title keeps one width whatever is chosen: 44 columns.
pub fn sort_label_width() -> (w: usize)
    ensures
        w == (if spec_sort_label_width() <= usize::MAX { spec_sort_label_width() } else { usize::MAX as int }),
        w == 44,
{
    proof {
        reveal_strlit(" <o> group:   <p> sort:  ");
        reveal_strlit("none");
        reveal_strlit("artist");
        reveal_strlit("path");
        reveal_strlit("title");
        reveal_strlit("duration");
        reveal_strlit("date modified");
        lemma_labels_printable(Category::Flat, Sort::Title);
        lemma_labels_printable(Category::Artist, Sort::Duration);
        lemma_labels_printable(Category::Path, Sort::Artist);
        lemma_labels_printable(Category::Path, Sort::Path);
        lemma_labels_printable(Category::Path, Sort::DateModified);
        assert(printable_ascii(" <o> group:   <p> sort:  "@));
    }
    let fixed = display_width(" <o> group:   <p> sort:  ");
    let mut cats: Vec<usize> = Vec::new();
    cats.push(display_width(Category::Flat.label()));
    cats.push(display_width(Category::Artist.label()));
    cats.push(display_width(Category::Path.label()));
    let mut sorts: Vec<usize> = Vec::new();
    sorts.push(display_width(Sort::Title.label()));
    sorts.push(display_width(Sort::Duration.label()));
    sorts.push(display_width(Sort::Artist.label()));
    sorts.push(display_width(Sort::Path.label()));
    sorts.push(display_width(Sort::DateModified.label()));
    let mc = max_width(&cats);
    let ms = max_width(&sorts);
    proof {
        assert(cats@ =~= seq![
            str_width(category_label(Category::Flat)), str_width(category_label(Category::Artist)),
            str_width(category_label(Category::Path)),
        ]);
        assert(sorts@ =~= seq![
            str_width(sort_label(Sort::Title)), str_width(sort_label(Sort::Duration)), str_width(sort_label(Sort::Artist)),
            str_width(sort_label(Sort::Path)), str_width(sort_label(Sort::DateModified)),
        ]);
        assert(fixed == 25);
        assert(cats@ =~= seq![4usize, 6usize, 4usize]);
        assert(sorts@ =~= seq![5usize, 8usize, 6usize, 4usize, 13usize]);
        reveal_with_fuel(max_of, 6);
        assert(mc == 6);
        assert(ms == 13);
    }
    fixed.saturating_add(mc).saturating_add(ms)
}

/// The category-and-sort title of a panel: the text naming both, and the
/// run of '─' that pads it to `sort_label_width` columns.
///
/// For every grouping and sort order the title takes the same 44 columns:
/// the text's width plus one `─` for each column left.
pub fn sort_title_parts(category_label: &str, sort_label: &str) -> (r: (String, String))
    ensures
        r.0@ == sort_title_text(category_label@, sort_label@),
        (exists|c: Category, s: Sort| category_label@ == crate::state::category_label(c)
            && sort_label@ == crate::state::sort_label(s)) ==> str_width(r.0@) + r.1@.len() == 44,
        ({
            let total = if spec_sort_label_width() <= usize::MAX { spec_sort_label_width() } else { usize::MAX as int };
            let fill = if total >= str_width(r.0@) { total - str_width(r.0@) } else { 0 };
            r.1@ == Seq::new(fill as nat, |i: int| '─')
        }),
{
    let mut text = String::from_str(" <o> group: ");
    text.append(category_label);
    text.append("  <p> sort: ");
    text.append(sort_label);
    text.append(" ");
    proof {
        if exists|c: Category, s: Sort| category_label@ == crate::state::category_label(c)
            && sort_label@ == crate::state::sort_label(s) {
            let (c, s) = choose|c: Category, s: Sort| category_label@ == crate::state::category_label(c)
                && sort_label@ == crate::state::sort_label(s);
            lemma_labels_printable(c, s);
            reveal_strlit(" <o> group: ");
            reveal_strlit("  <p> sort: ");
            reveal_strlit(" ");
            assert(printable_ascii(" <o> group: "@));
            assert(printable_ascii("  <p> sort: "@));
            assert(printable_ascii(" "@));
            lemma_printable_concat(" <o> group: "@, category_label@);
            lemma_printable_concat(" <o> group: "@ + category_label@, "  <p> sort: "@);
            lemma_printable_concat(" <o> group: "@ + category_label@ + "  <p> sort: "@, sort_label@);
            lemma_printable_concat(" <o> group: "@ + category_label@ + "  <p> sort: "@ + sort_label@, " "@);
            assert(text@.len() <= 44);
        }
    }
    let total = sort_label_width();
    let used = display_width(text.as_str());
    let fill_len = total.saturating_sub(used);
    let mut fill = String::new();
    let mut k: usize = 0;
    while k < fill_len
        invariant
            k <= fill_len,
            fill@ == Seq::new(k as nat, |i: int| '─'),
        decreases fill_len - k,
    {
        push_char(&mut fill, '─');
        k = k + 1;
        proof {
            assert(fill@ =~= Seq::new(k as nat, |i: int| '─'));
        }
    }
    (text, fill)
}

/// The left title of a song panel: its name, then the search as it stands
/// (the query being typed with a cursor and the match count, the query in
/// force with its count, or a hint).
pub fn search_title_text(title_prefix: &str, searching: bool, query: &str, match_count: usize) -> (s: String)
    ensures
        s@ == " "@ + title_prefix@ + " — "@ + search_segment(searching, query@, crate::text::spec_decimal(match_count as nat), match_count == 1) + " "@,
{
    let mut matches = crate::text::decimal(match_count as u64);
    matches.append(" match");
    matches.append(plural(match_count, "es"));
    let empty = chars_of(query).len() == 0;
    let mut seg = String::new();
    if searching {
        if empty {
            seg.append("</> ▏");
        } else {
            seg.append("</> ");
            seg.append(query);
            seg.append("▏ ");
            seg.append(matches.as_str());
        }
    } else if !empty {
        seg.append("\"");
        seg.append(query);
        seg.append("\" · ");
        seg.append(matches.as_str());
    } else {
        seg.append("</> search");
    }
    let mut s = String::from_str(" ");
    s.append(title_prefix);
    s.append(" — ");
    s.append(seg.as_str());
    s.append(" ");
    s
}

/// The search part of a panel title; `count` is the match count in
/// decimal and `one` says whether it is exactly one.
pub open spec fn search_segment(searching: bool, query: Seq<char>, count: Seq<char>, one: bool) -> Seq<char> {
    let matches = count + " match"@ + (if one { ""@ } else { "es"@ });
    if searching {
        if query.len() == 0 { "</> ▏"@ } else { "</> "@ + query + "▏ "@ + matches }
    } else if query.len() > 0 {
        "\""@ + query + "\" · "@ + matches
    } else {
        "</> search"@
    }
}

} // verus!
