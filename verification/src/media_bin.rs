//! The media bin: the project's assets, the folders they are filed in, the
//! two ways of looking at them, and the columns they are sorted by.
//!
//! The frame-rate column is derived from the exact rate by integer
//! arithmetic, so 24000/1001 reads as `23.976` without a float ever
//! existing, and the duration and frame-rate columns sort exactly.

use vstd::prelude::*;
use vstd::string::*;
use vstd::seq_lib::*;
use vstd::multiset::*;
use crate::text::{
    chars_of, decimal, decimal_text, is_blank, is_ws, lemma_trim_is_idempotent,
    lemma_trim_keeps_unpadded, push_char, trim, trimmed, zero_padded, zero_padded_text,
};

verus! {

/// Shown in a metadata column the item has no answer for.
pub const UNKNOWN: &'static str = "-";

/// The name a folder gets when the typed name is blank.
pub const NEW_FOLDER_NAME: &'static str = "New folder";

/// How the contents of a bin are drawn.
#[derive(Debug, Clone, Copy, PartialEq, Eq, Structural)]
pub enum BinViewMode {
    /// One row per item, with the metadata columns.
    List,
    /// A wrapping grid of tiles.
    Grid,
}

impl BinViewMode {
    /// The mode the toggle button switches to.
    pub fn other(self) -> (r: BinViewMode)
        ensures
            r != self,
    {
        match self {
            BinViewMode::List => BinViewMode::Grid,
            BinViewMode::Grid => BinViewMode::List,
        }
    }

    /// The name of this mode, as the toggle button shows it.
    pub fn label(self) -> (r: &'static str)
        ensures
            r@ == match self {
                BinViewMode::List => "List"@,
                BinViewMode::Grid => "Grid"@,
            },
    {
        match self {
            BinViewMode::List => "List",
            BinViewMode::Grid => "Grid",
        }
    }
}

impl Default for BinViewMode {
    /// A folder opens as a list.
    fn default() -> (r: Self)
        ensures
            r == BinViewMode::List,
    {
        BinViewMode::List
    }
}

/// A column of the list view, and the key the contents can be sorted by.
#[derive(Debug, Clone, Copy, PartialEq, Eq, Structural)]
pub enum SortColumn {
    /// Display name, compared case-insensitively.
    Name,
    /// Total duration, compared exactly as a length in seconds.
    Duration,
    /// Frame rate of the first video stream, compared exactly.
    FrameRate,
    /// Pixel count of the first video stream, then width.
    Resolution,
}

impl SortColumn {
    /// Every column, in the order the list view draws them.
    pub fn all() -> (r: Vec<SortColumn>)
        ensures
            r@ == seq![
                SortColumn::Name,
                SortColumn::Duration,
                SortColumn::FrameRate,
                SortColumn::Resolution,
            ],
    {
        vec![SortColumn::Name, SortColumn::Duration, SortColumn::FrameRate, SortColumn::Resolution]
    }

    /// The column heading.
    pub fn label(self) -> (r: &'static str)
        ensures
            r@ == match self {
                SortColumn::Name => "Name"@,
                SortColumn::Duration => "Duration"@,
                SortColumn::FrameRate => "FPS"@,
                SortColumn::Resolution => "Resolution"@,
            },
    {
        match self {
            SortColumn::Name => "Name",
            SortColumn::Duration => "Duration",
            SortColumn::FrameRate => "FPS",
            SortColumn::Resolution => "Resolution",
        }
    }
}

impl Default for SortColumn {
    /// By name.
    fn default() -> (r: Self)
        ensures
            r == SortColumn::Name,
    {
        SortColumn::Name
    }
}

/// Which column the contents are ordered by, and which way.
#[derive(Debug, Clone, Copy, PartialEq, Eq, Structural)]
pub struct BinSort {
    /// The key.
    pub column: SortColumn,
    /// Ascending when true: A first, shortest first, slowest first, smallest
    /// first.
    pub ascending: bool,
}

impl BinSort {
    /// Ascending by `column`.
    pub fn by_column(column: SortColumn) -> (r: BinSort)
        ensures
            r.column == column,
            r.ascending,
    {
        BinSort { column, ascending: true }
    }

    /// What clicking `column`'s heading does: a click on the column already
    /// sorted by reverses it, a click on another one sorts by it, ascending.
    pub fn click(&mut self, column: SortColumn)
        ensures
            *final(self) == clicked(*old(self), column),
    {
        if self.column == column {
            self.ascending = !self.ascending;
        } else {
            *self = BinSort::by_column(column);
        }
    }

    /// The arrow drawn after the heading of `column`: nothing unless it is
    /// the column in force.
    pub fn arrow(&self, column: SortColumn) -> (r: &'static str)
        ensures
            r@ == if self.column != column {
                ""@
            } else if self.ascending {
                " ^"@
            } else {
                " v"@
            },
    {
        if self.column != column {
            ""
        } else if self.ascending {
            " ^"
        } else {
            " v"
        }
    }
}

impl Default for BinSort {
    /// Ascending by name, which is how a folder opens.
    fn default() -> (r: Self)
        ensures
            r.column == SortColumn::Name,
            r.ascending,
    {
        BinSort::by_column(SortColumn::Name)
    }
}

/// The sort a click on `column`'s heading leaves.
pub open spec fn clicked(sort: BinSort, column: SortColumn) -> BinSort {
    BinSort {
        column,
        ascending: if sort.column == column {
            !sort.ascending
        } else {
            true
        },
    }
}

/// A column clicked twice is where it started when it was already the
/// column in force: the second click undoes the first. Clicking another
/// column twice leaves it descending.
pub proof fn law_two_clicks_restore(sort: BinSort, column: SortColumn)
    ensures
        sort.column == column ==> clicked(clicked(sort, column), column) == sort,
        sort.column != column ==> clicked(clicked(sort, column), column) == (BinSort {
            column,
            ascending: false,
        }),
{
}

/// A folder name the user types is never empty, and has no whitespace at
/// either end.
pub proof fn law_folder_names_are_never_empty(typed: Seq<char>)
    ensures
        spec_folder_name(typed).len() > 0,
        trim(spec_folder_name(typed)) == spec_folder_name(typed),
{
    reveal_strlit("New folder");
    lemma_trim_is_idempotent(typed);
    if trim(typed).len() == 0 {
        let n = NEW_FOLDER_NAME@;
        assert(!is_ws(n[0]) && !is_ws(n[n.len() - 1]));
        lemma_trim_keeps_unpadded(n);
    }
}

/// The name a typed folder name becomes: trimmed, and never empty.
pub open spec fn spec_folder_name(typed: Seq<char>) -> Seq<char> {
    if trim(typed).len() == 0 {
        NEW_FOLDER_NAME@
    } else {
        trim(typed)
    }
}

/// A typed folder name, trimmed, and never empty.
pub fn folder_name(typed: &str) -> (r: String)
    ensures
        r@ == spec_folder_name(typed@),
{
    if is_blank(typed) {
        NEW_FOLDER_NAME.to_string()
    } else {
        trimmed(typed)
    }
}

/// An exact rate: `numerator / denominator` per second.
#[derive(Debug, Clone, Copy, PartialEq, Eq, Structural)]
pub struct Rational {
    /// Units per `denominator` seconds.
    pub numerator: u32,
    /// Seconds per `numerator` units.
    pub denominator: u32,
}

/// A length: `value` units of `1 / rate` seconds each.
#[derive(Debug, Clone, Copy, PartialEq, Eq, Structural)]
pub struct MediaTime {
    /// How many units.
    pub value: i64,
    /// How many units make a second.
    pub rate: Rational,
}

/// The first video stream of an item.
#[derive(Debug, Clone, Copy, PartialEq, Eq, Structural)]
pub struct VideoInfo {
    /// Width in pixels.
    pub width: u32,
    /// Height in pixels.
    pub height: u32,
    /// The exact frame rate.
    pub frame_rate: Rational,
}

/// Whether a proxy stands in for an item while editing.
pub enum ProxyState {
    /// No proxy was asked for.
    NotMade,
    /// One is being generated.
    Pending,
    /// One is ready, at this path.
    Ready(String),
    /// The source changed since this one was made.
    Stale(String),
    /// Making one failed, with this message.
    Failed(String),
}

/// One media item as the bin shows it.
pub struct MediaEntry {
    /// The item's identity.
    pub id: u64,
    /// Its display name.
    pub name: String,
    /// Its total length, when probed.
    pub duration: Option<MediaTime>,
    /// Its first video stream, when it has one.
    pub video: Option<VideoInfo>,
    /// Whether it has an audio stream.
    pub has_audio: bool,
    /// Whether its file is missing.
    pub offline: bool,
    /// Its proxy.
    pub proxy: ProxyState,
}

/// The three answers of a comparison.
#[derive(Debug, Clone, Copy, PartialEq, Eq, Structural)]
pub enum Order3 {
    /// The left one goes first.
    Less,
    /// Neither goes first.
    Equal,
    /// The right one goes first.
    Greater,
}

/// The comparison read the other way round.
pub open spec fn flip(o: Order3) -> Order3 {
    match o {
        Order3::Less => Order3::Greater,
        Order3::Equal => Order3::Equal,
        Order3::Greater => Order3::Less,
    }
}

/// `a` then `b`: the second comparison breaks the first one's ties.
pub open spec fn then(a: Order3, b: Order3) -> Order3 {
    if a == Order3::Equal {
        b
    } else {
        a
    }
}

/// Two integers compared.
pub open spec fn order_int(a: int, b: int) -> Order3 {
    if a < b {
        Order3::Less
    } else if a == b {
        Order3::Equal
    } else {
        Order3::Greater
    }
}

/// Two strings compared character by character, as `str::cmp` orders them.
pub open spec fn order_text(a: Seq<char>, b: Seq<char>) -> Order3
    decreases a.len(),
{
    if a.len() == 0 {
        if b.len() == 0 {
            Order3::Equal
        } else {
            Order3::Less
        }
    } else if b.len() == 0 {
        Order3::Greater
    } else if a[0] != b[0] {
        order_int(a[0] as int, b[0] as int)
    } else {
        order_text(a.drop_first(), b.drop_first())
    }
}

/// What `str::to_lowercase` makes of `s`.
pub uninterp spec fn lowercase(s: Seq<char>) -> Seq<char>;

/// `s` lower-cased by Unicode's rules.
///
/// Trusted: the result is `str::to_lowercase` of `s`, which depends on `s`
/// alone.
#[verifier::external_body]
fn to_lowercase(s: &str) -> (r: String)
    ensures
        r@ == lowercase(s@),
{
    s.to_lowercase()
}

/// Names compared case-insensitively, then exactly.
pub open spec fn order_names(a: Seq<char>, b: Seq<char>) -> Order3 {
    then(order_text(lowercase(a), lowercase(b)), order_text(a, b))
}

/// An item's length, zero when unprobed.
pub open spec fn duration_of(e: MediaEntry) -> MediaTime {
    match e.duration {
        Some(d) => d,
        None => MediaTime { value: 0, rate: Rational { numerator: 1, denominator: 1 } },
    }
}

/// Two lengths compared exactly as seconds: `value * denominator /
/// numerator` of each, cross-multiplied.
pub open spec fn order_durations(a: MediaTime, b: MediaTime) -> Order3 {
    order_int(
        a.value * a.rate.denominator * b.rate.numerator,
        b.value * b.rate.denominator * a.rate.numerator,
    )
}

/// Two optional rates compared exactly; no rate sorts first.
pub open spec fn order_rates(a: Option<Rational>, b: Option<Rational>) -> Order3 {
    match (a, b) {
        (None, None) => Order3::Equal,
        (None, Some(_)) => Order3::Less,
        (Some(_), None) => Order3::Greater,
        (Some(x), Some(y)) => order_int(
            x.numerator * y.denominator,
            y.numerator * x.denominator,
        ),
    }
}

/// An item's frame rate, when it has video.
pub open spec fn rate_of(e: MediaEntry) -> Option<Rational> {
    match e.video {
        Some(v) => Some(v.frame_rate),
        None => None,
    }
}

/// An item's pixel count and width, zero without video.
pub open spec fn pixels_of(e: MediaEntry) -> (int, int) {
    match e.video {
        Some(v) => (v.width * v.height, v.width as int),
        None => (0, 0),
    }
}

/// Two items compared by `sort`: the column, then the name, reversed when
/// descending.
pub open spec fn order_entries(sort: BinSort, a: MediaEntry, b: MediaEntry) -> Order3 {
    let by_column = match sort.column {
        SortColumn::Name => order_names(a.name@, b.name@),
        SortColumn::Duration => order_durations(duration_of(a), duration_of(b)),
        SortColumn::FrameRate => order_rates(rate_of(a), rate_of(b)),
        SortColumn::Resolution => then(
            order_int(pixels_of(a).0, pixels_of(b).0),
            order_int(pixels_of(a).1, pixels_of(b).1),
        ),
    };
    let o = then(by_column, order_names(a.name@, b.name@));
    if sort.ascending {
        o
    } else {
        flip(o)
    }
}

proof fn lemma_order_text_flip(a: Seq<char>, b: Seq<char>)
    ensures
        order_text(b, a) == flip(order_text(a, b)),
    decreases a.len(),
{
    if a.len() > 0 && b.len() > 0 && a[0] == b[0] {
        lemma_order_text_flip(a.drop_first(), b.drop_first());
    }
}

/// Comparing the other way round flips the answer.
pub proof fn lemma_order_entries_flip(sort: BinSort, a: MediaEntry, b: MediaEntry)
    ensures
        order_entries(sort, b, a) == flip(order_entries(sort, a, b)),
{
    lemma_order_text_flip(lowercase(a.name@), lowercase(b.name@));
    lemma_order_text_flip(a.name@, b.name@);
    let da = duration_of(a);
    let db = duration_of(b);
    assert(order_durations(db, da) == flip(order_durations(da, db)));
}

/// Two strings compared.
fn compare_text(a: &str, b: &str) -> (r: Order3)
    ensures
        r == order_text(a@, b@),
{
    let x = chars_of(a);
    let y = chars_of(b);
    let mut i: usize = 0;
    assert(x@.subrange(0, x@.len() as int) =~= x@);
    assert(y@.subrange(0, y@.len() as int) =~= y@);
    while i < x.len() && i < y.len() && x[i] == y[i]
        invariant
            i <= x@.len(),
            i <= y@.len(),
            order_text(a@, b@) == order_text(x@.subrange(i as int, x@.len() as int), y@.subrange(
                i as int,
                y@.len() as int,
            )),
        decreases x@.len() - i,
    {
        assert(x@.subrange(i as int, x@.len() as int).drop_first() =~= x@.subrange(
            i + 1 as int,
            x@.len() as int,
        ));
        assert(y@.subrange(i as int, y@.len() as int).drop_first() =~= y@.subrange(
            i + 1 as int,
            y@.len() as int,
        ));
        i = i + 1;
    }
    assert(x@.subrange(0, x@.len() as int) =~= x@);
    assert(y@.subrange(0, y@.len() as int) =~= y@);
    if i == x.len() {
        if i == y.len() {
            Order3::Equal
        } else {
            Order3::Less
        }
    } else if i == y.len() {
        Order3::Greater
    } else if x[i] < y[i] {
        Order3::Less
    } else {
        Order3::Greater
    }
}

/// Two integers compared.
fn compare_i128(a: i128, b: i128) -> (r: Order3)
    ensures
        r == order_int(a as int, b as int),
{
    if a < b {
        Order3::Less
    } else if a == b {
        Order3::Equal
    } else {
        Order3::Greater
    }
}

/// `a` then `b`.
fn then_exec(a: Order3, b: Order3) -> (r: Order3)
    ensures
        r == then(a, b),
{
    if a == Order3::Equal {
        b
    } else {
        a
    }
}

proof fn lemma_u32_product(a: int, b: int)
    requires
        0 <= a < 0x1_0000_0000,
        0 <= b < 0x1_0000_0000,
    ensures
        0 <= a * b < 0x1_0000_0000_0000_0000,
{
    assert(0 <= a * b <= 0xffff_ffff * 0xffff_ffff) by (nonlinear_arith)
        requires
            0 <= a <= 0xffff_ffff,
            0 <= b <= 0xffff_ffff,
    ;
}

proof fn lemma_product_fits(v: int, d: int, n: int)
    requires
        -0x8000_0000_0000_0000int <= v < 0x8000_0000_0000_0000int,
        0 <= d < 0x1_0000_0000int,
        0 <= n < 0x1_0000_0000int,
    ensures
        -0x8000_0000_0000_0000_0000_0000int < v * d < 0x8000_0000_0000_0000_0000_0000int,
        -0x8000_0000_0000_0000_0000_0000_0000_0000int < (v * d) * n
            < 0x8000_0000_0000_0000_0000_0000_0000_0000int,
{
    let a = if v < 0 { -v } else { v };
    let big = 0x8000_0000_0000_0000int;
    let m = 0xffff_ffffint;
    assert(0 <= a * d <= big * m) by (nonlinear_arith)
        requires
            0 <= a <= big,
            0 <= d <= m,
    ;
    let ad = a * d;
    assert(0 <= ad * n <= (big * m) * m) by (nonlinear_arith)
        requires
            0 <= ad <= big * m,
            0 <= n <= m,
    ;
    assert((big * m) * m == 0x7fff_ffff_0000_0000_8000_0000_0000_0000int);
    assert(big * m == 0x7fff_ffff_8000_0000_0000_0000int);
    let vd = v * d;
    assert(vd == ad || vd == -ad) by (nonlinear_arith)
        requires
            a == v || a == -v,
            ad == a * d,
            vd == v * d,
    ;
    let p = ad * n;
    let q = vd * n;
    assert(q == p || q == -p) by (nonlinear_arith)
        requires
            vd == ad || vd == -ad,
            p == ad * n,
            q == vd * n,
    ;
}

/// Two names compared case-insensitively, then exactly.
fn compare_names(a: &str, b: &str) -> (r: Order3)
    ensures
        r == order_names(a@, b@),
{
    let la = to_lowercase(a);
    let lb = to_lowercase(b);
    then_exec(compare_text(la.as_str(), lb.as_str()), compare_text(a, b))
}

/// Two items compared by `sort`.
pub fn compare_entries(sort: BinSort, a: &MediaEntry, b: &MediaEntry) -> (r: Order3)
    ensures
        r == order_entries(sort, *a, *b),
{
    let names = compare_names(a.name.as_str(), b.name.as_str());
    let by_column = match sort.column {
        SortColumn::Name => names,
        SortColumn::Duration => {
            let (va, na, da) = match a.duration {
                Some(d) => (d.value, d.rate.numerator, d.rate.denominator),
                None => (0i64, 1u32, 1u32),
            };
            let (vb, nb, db) = match b.duration {
                Some(d) => (d.value, d.rate.numerator, d.rate.denominator),
                None => (0i64, 1u32, 1u32),
            };
            proof {
                lemma_product_fits(va as int, da as int, nb as int);
                lemma_product_fits(vb as int, db as int, na as int);
            }
            let x: i128 = (va as i128) * (da as i128);
            let y: i128 = (vb as i128) * (db as i128);
            compare_i128(x * (nb as i128), y * (na as i128))
        },
        SortColumn::FrameRate => match (a.video, b.video) {
            (None, None) => Order3::Equal,
            (None, Some(_)) => Order3::Less,
            (Some(_), None) => Order3::Greater,
            (Some(x), Some(y)) => {
                proof {
                    lemma_u32_product(x.frame_rate.numerator as int, y.frame_rate.denominator as int);
                    lemma_u32_product(y.frame_rate.numerator as int, x.frame_rate.denominator as int);
                }
                let l = (x.frame_rate.numerator as u64) * (y.frame_rate.denominator as u64);
                let r = (y.frame_rate.numerator as u64) * (x.frame_rate.denominator as u64);
                compare_i128(l as i128, r as i128)
            },
        },
        SortColumn::Resolution => {
            proof {
                match a.video {
                    Some(v) => lemma_u32_product(v.width as int, v.height as int),
                    None => {},
                }
                match b.video {
                    Some(v) => lemma_u32_product(v.width as int, v.height as int),
                    None => {},
                }
            }
            let (pa, wa) = match a.video {
                Some(v) => ((v.width as u64) * (v.height as u64), v.width),
                None => (0u64, 0u32),
            };
            let (pb, wb) = match b.video {
                Some(v) => ((v.width as u64) * (v.height as u64), v.width),
                None => (0u64, 0u32),
            };
            then_exec(compare_i128(pa as i128, pb as i128), compare_i128(wa as i128, wb as i128))
        },
    };
    let o = then_exec(by_column, names);
    if sort.ascending {
        o
    } else {
        match o {
            Order3::Less => Order3::Greater,
            Order3::Equal => Order3::Equal,
            Order3::Greater => Order3::Less,
        }
    }
}

/// Whether each item of `s` comes no later than the next one under `sort`.
pub open spec fn sorted_by(sort: BinSort, s: Seq<MediaEntry>) -> bool {
    forall|i: int| 0 <= i < s.len() - 1 ==> #[trigger] order_entries(sort, s[i], s[i + 1])
        != Order3::Greater
}

/// The entries behind a list of references.
pub open spec fn deref_all(s: Seq<&MediaEntry>) -> Seq<MediaEntry> {
    s.map_values(|e: &MediaEntry| *e)
}

/// Where `x` goes among the items `s`, already in order: just after the
/// last of them that does not sort after it, so it follows every item it
/// ties with.
pub open spec fn insert_point(sort: BinSort, s: Seq<MediaEntry>, x: MediaEntry) -> int
    decreases s.len(),
{
    if s.len() == 0 {
        0
    } else if order_entries(sort, s.last(), x) == Order3::Greater {
        insert_point(sort, s.drop_last(), x)
    } else {
        s.len() as int
    }
}

/// `s` in the order `sort` gives, stably: each item in turn is placed after
/// every earlier one that does not sort after it, so items that compare
/// equal keep the order they came in.
pub open spec fn stable_sorted(sort: BinSort, s: Seq<MediaEntry>) -> Seq<MediaEntry>
    decreases s.len(),
{
    if s.len() == 0 {
        s
    } else {
        let t = stable_sorted(sort, s.drop_last());
        t.insert(insert_point(sort, t, s.last()), s.last())
    }
}

/// `items` in the order `sort` gives them; items that compare equal keep
/// the order they came in.
pub fn sort_entries<'a>(items: Vec<&'a MediaEntry>, sort: BinSort) -> (r: Vec<&'a MediaEntry>)
    ensures
        deref_all(r@) == stable_sorted(sort, deref_all(items@)),
        deref_all(r@).to_multiset() == deref_all(items@).to_multiset(),
        sorted_by(sort, deref_all(r@)),
{
    let mut out: Vec<&'a MediaEntry> = Vec::new();
    let mut i: usize = 0;
    proof {
        assert(deref_all(out@) =~= Seq::<MediaEntry>::empty());
        assert(deref_all(items@.subrange(0, 0)) =~= Seq::<MediaEntry>::empty());
    }
    while i < items.len()
        invariant
            i <= items@.len(),
            deref_all(out@).to_multiset() == deref_all(items@.subrange(0, i as int)).to_multiset(),
            sorted_by(sort, deref_all(out@)),
            deref_all(out@) == stable_sorted(sort, deref_all(items@.subrange(0, i as int))),
        decreases items@.len() - i,
    {
        let x = items[i];
        let mut j = out.len();
        assert(deref_all(out@).subrange(0, out@.len() as int) =~= deref_all(out@));
        while j > 0 && compare_entries(sort, out[j - 1], x) == Order3::Greater
            invariant
                j <= out@.len(),
                forall|k: int|
                    j <= k < out@.len() ==> #[trigger] order_entries(sort, *out@[k], *x)
                        == Order3::Greater,
                insert_point(sort, deref_all(out@), *x) == insert_point(
                    sort,
                    deref_all(out@).subrange(0, j as int),
                    *x,
                ),
            decreases j,
        {
            let ghost d = deref_all(out@);
            assert(d.subrange(0, j as int).drop_last() =~= d.subrange(0, j - 1));
            assert(d.subrange(0, j as int).last() == *out@[j - 1]);
            j = j - 1;
        }
        proof {
            let d = deref_all(out@);
            if j > 0 {
                assert(d.subrange(0, j as int).last() == *out@[j - 1]);
            }
            assert(insert_point(sort, d, *x) == j);
        }
        let ghost before = out@;
        proof {
            if j < before.len() {
                lemma_order_entries_flip(sort, *before[j as int], *x);
            }
            if j > 0 {
                assert(order_entries(sort, *before[j - 1], *x) != Order3::Greater);
            }
        }
        out.insert(j, x);
        proof {
            let d = deref_all(out@);
            let b = deref_all(before);
            let pre = deref_all(items@.subrange(0, i as int));
            assert(d =~= b.insert(j as int, *x));
            assert(deref_all(items@.subrange(0, i + 1 as int)) =~= pre.push(*x));
            assert(pre.push(*x).drop_last() =~= pre);
            assert(d == stable_sorted(sort, pre.push(*x)));
            to_multiset_insert(b, j as int, *x);
            to_multiset_build(pre, *x);
            assert(d.to_multiset() =~= b.to_multiset().insert(*x));
            assert(pre.push(*x).to_multiset() =~= pre.to_multiset().insert(*x));
            assert forall|k: int| 0 <= k < d.len() - 1 implies #[trigger] order_entries(
                sort,
                d[k],
                d[k + 1],
            ) != Order3::Greater by {
                if k < j - 1 {
                    assert(d[k] == b[k] && d[k + 1] == b[k + 1]);
                    assert(order_entries(sort, b[k], b[k + 1]) != Order3::Greater);
                } else if k == j - 1 {
                    assert(d[k] == b[k] && d[k + 1] == *x);
                } else if k == j {
                    assert(d[k] == *x && d[k + 1] == b[k]);
                    assert(order_entries(sort, *before[k], *x) == Order3::Greater);
                } else {
                    let m = k - 1;
                    assert(d[k] == b[m] && d[k + 1] == b[m + 1]);
                    assert(order_entries(sort, b[m], b[m + 1]) != Order3::Greater);
                }
            }
        }
        i = i + 1;
    }
    assert(items@.subrange(0, items@.len() as int) =~= items@);
    out
}

/// `s` with its trailing `0`s removed, as `trim_end_matches('0')` does.
pub open spec fn trim_zeros(s: Seq<char>) -> Seq<char>
    decreases s.len(),
{
    if s.len() > 0 && s.last() == '0' {
        trim_zeros(s.drop_last())
    } else {
        s
    }
}

/// A rate written as the frame-rate column shows it: whole rates as a
/// number, others to three decimals without trailing zeros.
pub open spec fn rate_text(r: Rational) -> Seq<char> {
    let n = r.numerator as nat;
    let d = r.denominator as nat;
    if n % d == 0 {
        decimal(n / d)
    } else {
        let th = (n * 1000 + d / 2) / d;
        decimal(th / 1000) + seq!['.'] + trim_zeros(zero_padded(th % 1000, 3))
    }
}

/// What the frame-rate column shows for an item.
pub open spec fn spec_frame_rate_text(e: MediaEntry) -> Seq<char> {
    match e.video {
        Some(v) => rate_text(v.frame_rate),
        None => UNKNOWN@,
    }
}

/// `s` without its trailing zeros.
fn without_trailing_zeros(s: String) -> (r: String)
    ensures
        r@ == trim_zeros(s@),
{
    let v = chars_of(s.as_str());
    let mut j = v.len();
    assert(v@.subrange(0, j as int) =~= s@);
    while j > 0 && v[j - 1] == '0'
        invariant
            j <= v@.len(),
            trim_zeros(s@) == trim_zeros(v@.subrange(0, j as int)),
        decreases j,
    {
        assert(v@.subrange(0, j as int).drop_last() =~= v@.subrange(0, j - 1 as int));
        j = j - 1;
    }
    crate::text::string_of(v.as_slice(), 0, j)
}

/// A rate as the frame-rate column writes it, by integer arithmetic: 24,
/// 29.97, 23.976.
pub fn rate_label(rate: Rational) -> (r: String)
    requires
        rate.denominator > 0,
    ensures
        r@ == rate_text(rate),
{
    let n = rate.numerator as u64;
    let d = rate.denominator as u64;
    if n % d == 0 {
        return decimal_text(n / d);
    }
    let th = (n * 1000 + d / 2) / d;
    let mut out = decimal_text(th / 1000);
    push_char(&mut out, '.');
    let fraction = without_trailing_zeros(zero_padded_text(th % 1000, 3));
    out.append(fraction.as_str());
    out
}

/// What the frame-rate column shows for `item`: its exact rate, or `-`.
pub fn frame_rate_text(item: &MediaEntry) -> (r: String)
    requires
        item.video matches Some(v) ==> v.frame_rate.denominator > 0,
    ensures
        r@ == spec_frame_rate_text(*item),
{
    match item.video {
        Some(v) => rate_label(v.frame_rate),
        None => UNKNOWN.to_string(),
    }
}

/// What the resolution column shows for an item.
pub open spec fn spec_resolution_text(e: MediaEntry) -> Seq<char> {
    match e.video {
        Some(v) => decimal(v.width as nat) + seq!['x'] + decimal(v.height as nat),
        None => if e.has_audio {
            "audio"@
        } else {
            UNKNOWN@
        },
    }
}

/// What the resolution column shows for `item`: `1920x1080`, `audio` for a
/// sound-only item, or `-`.
pub fn resolution_text(item: &MediaEntry) -> (r: String)
    ensures
        r@ == spec_resolution_text(*item),
{
    match item.video {
        Some(v) => {
            let mut out = decimal_text(v.width as u64);
            push_char(&mut out, 'x');
            out.append(decimal_text(v.height as u64).as_str());
            out
        },
        None => if item.has_audio {
            "audio".to_string()
        } else {
            UNKNOWN.to_string()
        },
    }
}

/// The badge naming an item's proxy state.
pub open spec fn spec_proxy_text(p: ProxyState) -> Seq<char> {
    match p {
        ProxyState::NotMade => "NO PROXY"@,
        ProxyState::Pending => "PROXY..."@,
        ProxyState::Ready(_) => "PROXY"@,
        ProxyState::Stale(_) => "PROXY STALE"@,
        ProxyState::Failed(_) => "PROXY FAILED"@,
    }
}

/// The badge naming `item`'s proxy state.
pub fn proxy_text(item: &MediaEntry) -> (r: String)
    ensures
        r@ == spec_proxy_text(item.proxy),
{
    match item.proxy {
        ProxyState::NotMade => "NO PROXY",
        ProxyState::Pending => "PROXY...",
        ProxyState::Ready(_) => "PROXY",
        ProxyState::Stale(_) => "PROXY STALE",
        ProxyState::Failed(_) => "PROXY FAILED",
    }.to_string()
}

/// The first item of `media` whose id is `id`.
pub open spec fn lookup(media: Seq<MediaEntry>, id: u64) -> Option<MediaEntry>
    decreases media.len(),
{
    if media.len() == 0 {
        None
    } else if media[0].id == id {
        Some(media[0])
    } else {
        lookup(media.drop_first(), id)
    }
}

/// The items the first `n` ids of a bin name, in bin order, skipping ids the
/// project has lost.
pub open spec fn bin_items(media: Seq<MediaEntry>, ids: Seq<u64>, n: nat) -> Seq<MediaEntry>
    decreases n,
{
    if n == 0 {
        Seq::empty()
    } else {
        let before = bin_items(media, ids, (n - 1) as nat);
        match lookup(media, ids[n - 1]) {
            Some(e) => before.push(e),
            None => before,
        }
    }
}

/// The item `id` names, if the project has it.
fn media_item<'a>(media: &'a [MediaEntry], id: u64) -> (r: Option<&'a MediaEntry>)
    ensures
        match r {
            Some(e) => lookup(media@, id) == Some(*e),
            None => lookup(media@, id) is None,
        },
{
    let mut i: usize = 0;
    assert(media@.subrange(0, media@.len() as int) =~= media@);
    while i < media.len()
        invariant
            i <= media@.len(),
            lookup(media@, id) == lookup(media@.subrange(i as int, media@.len() as int), id),
        decreases media@.len() - i,
    {
        assert(media@.subrange(i as int, media@.len() as int).drop_first() =~= media@.subrange(
            i + 1 as int,
            media@.len() as int,
        ));
        if media[i].id == id {
            return Some(&media[i]);
        }
        i = i + 1;
    }
    None
}

/// The items of a bin, ordered by `sort`: the ids in `bin_media` the project
/// still has, sorted by the column and then the name.
pub fn sorted_media<'a>(media: &'a [MediaEntry], bin_media: &[u64], sort: BinSort) -> (r: Vec<
    &'a MediaEntry,
>)
    ensures
        deref_all(r@) == stable_sorted(sort, bin_items(media@, bin_media@, bin_media@.len())),
        deref_all(r@).to_multiset() == bin_items(media@, bin_media@, bin_media@.len()).to_multiset(),
        sorted_by(sort, deref_all(r@)),
{
    let mut items: Vec<&'a MediaEntry> = Vec::new();
    let mut i: usize = 0;
    proof {
        assert(lookup(media@, 0) == lookup(media@.subrange(0, media@.len() as int), 0)) by {
            assert(media@.subrange(0, media@.len() as int) =~= media@);
        }
    }
    while i < bin_media.len()
        invariant
            i <= bin_media@.len(),
            deref_all(items@) == bin_items(media@, bin_media@, i as nat),
        decreases bin_media@.len() - i,
    {
        proof {
            assert(media@.subrange(0, media@.len() as int) =~= media@);
        }
        match media_item(media, bin_media[i]) {
            Some(e) => {
                items.push(e);
                assert(deref_all(items@) =~= bin_items(media@, bin_media@, i as nat).push(*e));
            },
            None => {},
        }
        i = i + 1;
    }
    sort_entries(items, sort)
}


/// An item's picture size in pixels: the width times the height of its
/// first video stream, or nothing without one.
pub open spec fn picture_pixels(e: MediaEntry) -> int {
    match e.video {
        Some(v) => v.width as int * v.height as int,
        None => 0,
    }
}

/// An item's picture width, or nothing without video.
pub open spec fn picture_width(e: MediaEntry) -> int {
    match e.video {
        Some(v) => v.width as int,
        None => 0,
    }
}

/// The resolution column orders by pixel count, whatever the widths: an
/// item with fewer pixels comes first when ascending and last when
/// descending, and the width only breaks a tie in pixel count.
pub proof fn law_resolution_is_pixel_count_first(sort: BinSort, a: MediaEntry, b: MediaEntry)
    requires
        sort.column == SortColumn::Resolution,
    ensures
        picture_pixels(a) < picture_pixels(b) ==> order_entries(sort, a, b) == if sort.ascending {
            Order3::Less
        } else {
            Order3::Greater
        },
        picture_pixels(a) == picture_pixels(b) && picture_width(a) < picture_width(b) ==> order_entries(
            sort,
            a,
            b,
        ) == if sort.ascending {
            Order3::Less
        } else {
            Order3::Greater
        },
{
}

/// In a bin sorted ascending by resolution, no item has more pixels than
/// the one after it.
pub proof fn law_an_ascending_resolution_list_grows(sort: BinSort, s: Seq<MediaEntry>)
    requires
        sort.column == SortColumn::Resolution,
        sort.ascending,
        sorted_by(sort, s),
    ensures
        forall|i: int| 0 <= i < s.len() - 1 ==> picture_pixels(#[trigger] s[i]) <= picture_pixels(s[i + 1]),
{
    assert forall|i: int| 0 <= i < s.len() - 1 implies picture_pixels(#[trigger] s[i]) <= picture_pixels(
        s[i + 1],
    ) by {
        assert(order_entries(sort, s[i], s[i + 1]) != Order3::Greater);
        if picture_pixels(s[i]) > picture_pixels(s[i + 1]) {
            law_resolution_is_pixel_count_first(sort, s[i + 1], s[i]);
            lemma_order_entries_flip(sort, s[i + 1], s[i]);
        }
    }
}

} // verus!
