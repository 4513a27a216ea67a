//! Reading the galactic readiness page.
use vstd::prelude::*;
use vstd::string::*;
use crate::percent::PercentError;
use crate::text::{
    chars_of, contains_chars, contains_seq, find_char, rfind_char, trim_char, trim_matches_char,
};
use scraper::{Html, Selector};

pub mod data;

verus! {

/// Why a rating cannot be read from the page.
#[derive(Debug)]
pub enum ParseError {
    /// No element matches the selector.
    MissingRef(String),
    /// The rating is not a percentage.
    PercentError(PercentError),
}

impl From<PercentError> for ParseError {
    fn from(e: PercentError) -> (res: ParseError) {
        ParseError::PercentError(e)
    }
}

impl vstd::std_specs::convert::FromSpecImpl<PercentError> for ParseError {
    open spec fn obeys_from_spec() -> bool {
        true
    }

    open spec fn from_spec(e: PercentError) -> ParseError {
        ParseError::PercentError(e)
    }
}

/// The text is a group of CSS selectors that `scraper` parses.
pub uninterp spec fn css_selector_parses(selector: Seq<char>) -> bool;

/// The number of elements of the page `page` that the CSS `selector` matches.
pub uninterp spec fn css_match_count(page: Seq<char>, selector: Seq<char>) -> nat;

/// `text` is a way in which `inner_html` writes the element at position
/// `index` among those of the page `page` that the CSS `selector` matches.
pub uninterp spec fn css_match_serializes(page: Seq<char>, selector: Seq<char>, index: int, text: Seq<char>) -> bool;

/// Parses the page with `scraper::Html::parse_document` and the selector
/// with `scraper::Selector::parse`, and gives the `inner_html` of each element
/// that `Html::select` yields. The contract claims that the result is `None`
/// exactly when the selector does not parse, and that the number of texts
/// depends on the page and the selector alone, and that each text is a way
/// of writing the element at its position. Which way is left open:
/// `inner_html` writes the attributes of each element in the order of a
/// randomly seeded map.
#[verifier::external_body]
fn page_select_inner_html(page: &str, selector: &str) -> (res: Option<Vec<String>>)
    ensures
        res is Some <==> css_selector_parses(selector@),
        res matches Some(v) ==> v@.len() == css_match_count(page@, selector@),
        res matches Some(v) ==> forall|i: int|
            0 <= i < v@.len() ==> css_match_serializes(page@, selector@, i, #[trigger] v@[i]@),
{
    let selector = Selector::parse(selector).ok()?;
    let document = Html::parse_document(page);
    let mut out = Vec::new();
    for element in document.select(&selector) {
        out.push(element.inner_html());
    }
    Some(out)
}

/// The selector matches nothing on the page: it does not parse, or no
/// element matches it.
pub open spec fn matches_nothing(page: Seq<char>, selector: Seq<char>) -> bool {
    !css_selector_parses(selector) || css_match_count(page, selector) == 0
}

/// A sector of the galaxy, whose readiness the page rates.
#[derive(Debug, Clone, Copy, PartialEq, Eq, Structural)]
pub enum Sector {
    Inner,
    Terminus,
    Earth,
    Outer,
    Attican,
}

impl Sector {
    /// The CSS selector of the rating of this sector on the page.
    pub open spec fn selector_spec(self) -> Seq<char> {
        match self {
            Sector::Inner => "#gaw-trating-inner"@,
            Sector::Terminus => "#gaw-trating-terminus"@,
            Sector::Earth => "#gaw-trating-earth"@,
            Sector::Outer => "#gaw-trating-outer"@,
            Sector::Attican => "#gaw-trating-attican"@,
        }
    }

    /// The CSS selector of the rating of this sector on the page.
    pub fn selector(&self) -> (res: &'static str)
        ensures
            res@ == self.selector_spec(),
    {
        match *self {
            Sector::Inner => "#gaw-trating-inner",
            Sector::Terminus => "#gaw-trating-terminus",
            Sector::Earth => "#gaw-trating-earth",
            Sector::Outer => "#gaw-trating-outer",
            Sector::Attican => "#gaw-trating-attican",
        }
    }
}

/// The view of an optional text.
pub open spec fn opt_view(t: Option<String>) -> Option<Seq<char>> {
    match t {
        Some(s) => Some(s@),
        None => None,
    }
}

/// The rating text of `sector`, given the inner html of the first element
/// that matches its selector: that text without the `%` around it; `Err`
/// with the selector when nothing matches.
pub open spec fn rating_outcome(first: Option<Seq<char>>, sector: Sector) -> Result<Seq<char>, Seq<char>> {
    match first {
        Some(t) => Ok(trim_char(t, '%')),
        None => Err(sector.selector_spec()),
    }
}

/// What the library reads of a galactic readiness page: its html, the inner
/// html of its scripts, and that of the first element that matches the
/// selector of each sector.
#[derive(Debug)]
pub struct Document {
    html: String,
    scripts: Vec<String>,
    inner: Option<String>,
    terminus: Option<String>,
    earth: Option<String>,
    outer: Option<String>,
    attican: Option<String>,
}

/// The inner html of the first element of `page` that matches the selector
/// of `sector`.
fn first_match(page: &str, sector: Sector) -> (res: Option<String>)
    ensures
        res is None <==> matches_nothing(page@, sector.selector_spec()),
        res matches Some(t) ==> css_match_serializes(page@, sector.selector_spec(), 0, t@),
{
    match page_select_inner_html(page, sector.selector()) {
        Some(v) => {
            if v.len() > 0 {
                let first = v[0].clone();
                Some(first)
            } else {
                None
            }
        },
        None => None,
    }
}

impl Document {
    /// The html of the page.
    pub closed spec fn html_spec(self) -> Seq<char> {
        self.html@
    }

    /// The inner html of the scripts of the page.
    pub closed spec fn scripts_spec(self) -> Seq<Seq<char>> {
        self.scripts.deep_view()
    }

    /// The inner html of the first element that matches the selector of
    /// `sector`, if any.
    pub closed spec fn first_match_spec(self, sector: Sector) -> Option<Seq<char>> {
        match sector {
            Sector::Inner => opt_view(self.inner),
            Sector::Terminus => opt_view(self.terminus),
            Sector::Earth => opt_view(self.earth),
            Sector::Outer => opt_view(self.outer),
            Sector::Attican => opt_view(self.attican),
        }
    }

    /// The page whose html is `html`, read with `scraper`: a sector has a
    /// rating text exactly when its selector matches an element, and there are
    /// as many scripts as elements that `script` matches.
    pub fn new(html: &str) -> (res: Document)
        ensures
            res.html_spec() == html@,
            forall|sector: Sector| #[trigger] res.first_match_spec(sector) is None <==> matches_nothing(
                html@,
                sector.selector_spec(),
            ),
            forall|sector: Sector| #[trigger] res.first_match_spec(sector) matches Some(t)
                ==> css_match_serializes(html@, sector.selector_spec(), 0, t),
            res.scripts_spec().len() == (if css_selector_parses("script"@) {
                css_match_count(html@, "script"@)
            } else {
                0
            }),
            forall|i: int|
                0 <= i < res.scripts_spec().len() ==> css_match_serializes(
                    html@,
                    "script"@,
                    i,
                    #[trigger] res.scripts_spec()[i],
                ),
    {
        let scripts = match page_select_inner_html(html, "script") {
            Some(v) => v,
            None => Vec::new(),
        };
        assert forall|i: int| 0 <= i < scripts.deep_view().len() implies css_match_serializes(
            html@,
            "script"@,
            i,
            #[trigger] scripts.deep_view()[i],
        ) by {
            assert(scripts.deep_view()[i] == scripts@[i]@);
        }
        let res = Document {
            html: String::from_str(html),
            scripts,
            inner: first_match(html, Sector::Inner),
            terminus: first_match(html, Sector::Terminus),
            earth: first_match(html, Sector::Earth),
            outer: first_match(html, Sector::Outer),
            attican: first_match(html, Sector::Attican),
        };
        assert forall|sector: Sector| (#[trigger] res.first_match_spec(sector) is None <==> matches_nothing(
            html@,
            sector.selector_spec(),
        )) && (res.first_match_spec(sector) matches Some(t) ==> css_match_serializes(
            html@,
            sector.selector_spec(),
            0,
            t,
        )) by {
            match sector {
                Sector::Inner => {},
                Sector::Terminus => {},
                Sector::Earth => {},
                Sector::Outer => {},
                Sector::Attican => {},
            }
        }
        res
    }

    /// The html of the page.
    pub fn html(&self) -> (res: &str)
        ensures
            res@ == self.html_spec(),
    {
        self.html.as_str()
    }

    /// The rating of `sector` as the page writes it, without `%` around it; a
    /// missing element is reported with its selector.
    pub fn rating_text(&self, sector: Sector) -> (res: Result<String, ParseError>)
        ensures
            match rating_outcome(self.first_match_spec(sector), sector) {
                Ok(t) => res matches Ok(s) && s@ == t,
                Err(sel) => res matches Err(ParseError::MissingRef(r)) && r@ == sel,
            },
    {
        let first = match sector {
            Sector::Inner => &self.inner,
            Sector::Terminus => &self.terminus,
            Sector::Earth => &self.earth,
            Sector::Outer => &self.outer,
            Sector::Attican => &self.attican,
        };
        match first {
            Some(t) => Ok(trim_matches_char(t.as_str(), '%')),
            None => Err(ParseError::MissingRef(String::from_str(sector.selector()))),
        }
    }

    /// The inner html of the scripts of the page.
    pub fn scripts(&self) -> (res: &Vec<String>)
        ensures
            res.deep_view() == self.scripts_spec(),
    {
        &self.scripts
    }

    /// The data of the page, cut out of the first of its scripts that holds
    /// it; `None` when no script holds it, or when its last `}` comes before
    /// its first `{` with something between.
    pub fn infos(&self) -> (res: Option<Result<String, InfosError>>)
        ensures
            res is Some <==> (first_data_script(self.scripts_spec()) matches Some(script) && cuttable(script)),
            res matches Some(r) ==> match data_json(first_data_script(self.scripts_spec())->0) {
                Ok(j) => r matches Ok(s) && s@ == j,
                Err(e) => r == Err::<String, InfosError>(e),
            },
    {
        data_json_in(&self.scripts)
    }
}

/// What marks the script that holds the data of the page.
pub const DATA_MARKER: &'static str = "$gawdata";

/// Why the data of the page cannot be cut out of its script.
#[derive(Debug, Clone, Copy, PartialEq, Eq, Structural)]
pub enum InfosError {
    /// The script has no `{`.
    MissingStart,
    /// The script has no `}`.
    MissingEnd,
}

impl InfosError {
    /// What the error says.
    pub fn message(&self) -> (res: &'static str)
        ensures
            res@ == (match *self {
                InfosError::MissingStart => "missing start of json data"@,
                InfosError::MissingEnd => "missing end of json data"@,
            }),
    {
        match *self {
            InfosError::MissingStart => "missing start of json data",
            InfosError::MissingEnd => "missing end of json data",
        }
    }
}

/// `s` holds the character `c`.
pub open spec fn has_char(s: Seq<char>, c: char) -> bool {
    exists|i: int| 0 <= i < s.len() && s[i] == c
}

/// `i` is the position of the first `c` in `s`.
pub open spec fn is_first_index(s: Seq<char>, c: char, i: int) -> bool {
    0 <= i < s.len() && s[i] == c && forall|j: int| 0 <= j < i ==> s[j] != c
}

/// `i` is the position of the last `c` in `s`.
pub open spec fn is_last_index(s: Seq<char>, c: char, i: int) -> bool {
    0 <= i < s.len() && s[i] == c && forall|j: int| i < j < s.len() ==> s[j] != c
}

/// The position of the first `c` in `s`.
pub open spec fn first_index(s: Seq<char>, c: char) -> int {
    choose|i: int| is_first_index(s, c, i)
}

/// The position of the last `c` in `s`.
pub open spec fn last_index(s: Seq<char>, c: char) -> int {
    choose|i: int| is_last_index(s, c, i)
}

/// The script holds the data of the page.
pub open spec fn is_data_script(script: Seq<char>) -> bool {
    contains_seq(script, DATA_MARKER@)
}

/// The first script of `scripts` that holds the data of the page.
pub open spec fn first_data_script(scripts: Seq<Seq<char>>) -> Option<Seq<char>>
    decreases scripts.len(),
{
    if scripts.len() == 0 {
        None
    } else if is_data_script(scripts[0]) {
        Some(scripts[0])
    } else {
        first_data_script(scripts.drop_first())
    }
}

/// The text of the script can be cut: when it has a `{` and a `}`, the
/// first `{` comes at most one place after the last `}`.
pub open spec fn cuttable(script: Seq<char>) -> bool {
    has_char(script, '{') && has_char(script, '}') ==> first_index(script, '{') <= last_index(script, '}') + 1
}

/// The data of the page cut out of its script: from the first `{` to the
/// last `}`, both included.
pub open spec fn data_json(script: Seq<char>) -> Result<Seq<char>, InfosError> {
    if !has_char(script, '{') {
        Err(InfosError::MissingStart)
    } else if !has_char(script, '}') {
        Err(InfosError::MissingEnd)
    } else {
        Ok(script.subrange(first_index(script, '{'), last_index(script, '}') + 1))
    }
}

proof fn lemma_first_data_script_skip(scripts: Seq<Seq<char>>, k: int)
    requires
        0 <= k <= scripts.len(),
        forall|i: int| 0 <= i < k ==> !is_data_script(#[trigger] scripts[i]),
    ensures
        first_data_script(scripts) == first_data_script(scripts.skip(k)),
    decreases k,
{
    if k > 0 {
        assert(!is_data_script(scripts[0]));
        assert(scripts.drop_first().skip(k - 1) =~= scripts.skip(k));
        assert forall|i: int| 0 <= i < k - 1 implies !is_data_script(#[trigger] scripts.drop_first()[i]) by {
            assert(scripts.drop_first()[i] == scripts[i + 1]);
        }
        lemma_first_data_script_skip(scripts.drop_first(), k - 1);
    } else {
        assert(scripts.skip(0) =~= scripts);
    }
}

/// The data script is the first script that holds `$gawdata`: it is one of
/// the scripts, it holds the marker, and no script before it does; when no
/// script holds the marker, there is none.
pub proof fn law_first_data_script(scripts: Seq<Seq<char>>)
    ensures
        first_data_script(scripts) matches Some(s) ==> exists|i: int|
            0 <= i < scripts.len() && scripts[i] == s && contains_seq(s, "$gawdata"@) && forall|j: int|
                0 <= j < i ==> !contains_seq(#[trigger] scripts[j], "$gawdata"@),
        first_data_script(scripts) is None ==> forall|i: int|
            0 <= i < scripts.len() ==> !contains_seq(#[trigger] scripts[i], "$gawdata"@),
    decreases scripts.len(),
{
    if scripts.len() > 0 {
        law_first_data_script(scripts.drop_first());
        if !is_data_script(scripts[0]) {
            let rest = scripts.drop_first();
            if let Some(s) = first_data_script(rest) {
                let i = choose|i: int|
                    0 <= i < rest.len() && rest[i] == s && contains_seq(s, "$gawdata"@) && forall|j: int|
                        0 <= j < i ==> !contains_seq(#[trigger] rest[j], "$gawdata"@);
                assert(scripts[i + 1] == s);
                assert forall|j: int| 0 <= j < i + 1 implies !contains_seq(#[trigger] scripts[j], "$gawdata"@) by {
                    if j > 0 {
                        assert(scripts[j] == rest[j - 1]);
                    }
                }
            } else {
                assert forall|i: int| 0 <= i < scripts.len() implies !contains_seq(#[trigger] scripts[i], "$gawdata"@) by {
                    if i > 0 {
                        assert(scripts[i] == rest[i - 1]);
                    }
                }
            }
        }
    }
}

/// The first `{` and the last `}` of `script`, when it has them.
fn braces(script: &str) -> (res: (Option<usize>, Option<usize>))
    ensures
        match res.0 {
            Some(a) => has_char(script@, '{') && first_index(script@, '{') == a,
            None => !has_char(script@, '{'),
        },
        match res.1 {
            Some(b) => has_char(script@, '}') && last_index(script@, '}') == b && b < script@.len() && b < usize::MAX,
            None => !has_char(script@, '}'),
        },
{
    let cs = chars_of(script);
    let n = cs.len();
    let start = find_char(&cs, '{');
    let end = rfind_char(&cs, '}');
    proof {
        if let Some(a) = start {
            lemma_first_index_unique(script@, '{', a as int);
        }
        if let Some(b) = end {
            lemma_last_index_unique(script@, '}', b as int);
        }
    }
    (start, end)
}

/// The data cut out of `script`, or `None` when it cannot be cut.
pub fn try_cut_data_json(script: &str) -> (res: Option<Result<String, InfosError>>)
    ensures
        res is Some <==> cuttable(script@),
        res matches Some(r) ==> match data_json(script@) {
            Ok(j) => r matches Ok(s) && s@ == j,
            Err(e) => r == Err::<String, InfosError>(e),
        },
{
    match braces(script) {
        (None, _) => Some(Err(InfosError::MissingStart)),
        (Some(_), None) => Some(Err(InfosError::MissingEnd)),
        (Some(start), Some(end)) => {
            if start > end + 1 {
                None
            } else {
                let sub = script.substring_char(start, end + 1);
                Some(Ok(String::from_str(sub)))
            }
        },
    }
}

/// Cuts the data out of the script `script`.
pub fn cut_data_json(script: &str) -> (res: Result<String, InfosError>)
    requires
        cuttable(script@),
    ensures
        match data_json(script@) {
            Ok(j) => res matches Ok(s) && s@ == j,
            Err(e) => res == Err::<String, InfosError>(e),
        },
{
    match try_cut_data_json(script) {
        Some(r) => r,
        None => Err(InfosError::MissingStart),
    }
}

/// Position of the first script of `scripts` that holds the data.
fn first_data_index(scripts: &Vec<String>) -> (res: Option<usize>)
    ensures
        match res {
            Some(i) => i < scripts@.len() && first_data_script(scripts.deep_view()) == Some(scripts@[i as int]@),
            None => first_data_script(scripts.deep_view()) is None,
        },
{
    let marker = chars_of(DATA_MARKER);
    let n = scripts.len();
    let mut i: usize = 0;
    while i < n
        invariant
            n == scripts@.len(),
            marker@ == DATA_MARKER@,
            i <= n,
            forall|j: int| 0 <= j < i ==> !is_data_script(#[trigger] scripts.deep_view()[j]),
        decreases n - i,
    {
        let text = chars_of(scripts[i].as_str());
        assert(scripts.deep_view()[i as int] == scripts@[i as int]@);
        if contains_chars(&text, &marker) {
            proof {
                lemma_first_data_script_skip(scripts.deep_view(), i as int);
                assert(scripts.deep_view().skip(i as int)[0] == scripts@[i as int]@);
            }
            return Some(i);
        }
        i = i + 1;
    }
    proof {
        lemma_first_data_script_skip(scripts.deep_view(), n as int);
    }
    None
}

/// The data cut out of the first script of `scripts` that holds it; `None`
/// when no script holds it, or when that script cannot be cut.
pub fn data_json_in(scripts: &Vec<String>) -> (res: Option<Result<String, InfosError>>)
    ensures
        res is Some <==> (first_data_script(scripts.deep_view()) matches Some(script) && cuttable(script)),
        res matches Some(r) ==> match data_json(first_data_script(scripts.deep_view())->0) {
            Ok(j) => r matches Ok(s) && s@ == j,
            Err(e) => r == Err::<String, InfosError>(e),
        },
{
    match first_data_index(scripts) {
        Some(i) => try_cut_data_json(scripts[i].as_str()),
        None => None,
    }
}

proof fn lemma_first_index_unique(s: Seq<char>, c: char, i: int)
    requires
        is_first_index(s, c, i),
    ensures
        has_char(s, c),
        first_index(s, c) == i,
{
    let f = first_index(s, c);
    assert(is_first_index(s, c, f));
    if f < i {
        assert(s[f] != c);
    } else if f > i {
        assert(s[i] != c);
    }
}

proof fn lemma_last_index_unique(s: Seq<char>, c: char, i: int)
    requires
        is_last_index(s, c, i),
    ensures
        has_char(s, c),
        last_index(s, c) == i,
{
    let l = last_index(s, c);
    assert(is_last_index(s, c, l));
    if l < i {
        assert(s[l] != c);
    } else if l > i {
        assert(s[i] != c);
    }
}

/// The data cut out of a script is empty, or runs from a `{` to a `}`.
pub proof fn law_data_json_braces(script: Seq<char>)
    requires
        cuttable(script),
    ensures
        data_json(script) matches Ok(j) ==> j.len() == 0 || (j[0] == '{' && j.last() == '}'),
{
    if has_char(script, '{') && has_char(script, '}') {
        let a = choose|i: int| 0 <= i < script.len() && script[i] == '{';
        let b = choose|i: int| 0 <= i < script.len() && script[i] == '}';
        lemma_first_index_exists(script, '{', a);
        lemma_last_index_exists(script, '}', b);
    }
}

proof fn lemma_first_index_exists(s: Seq<char>, c: char, i: int)
    requires
        0 <= i < s.len(),
        s[i] == c,
    ensures
        is_first_index(s, c, first_index(s, c)),
    decreases i,
{
    if exists|j: int| 0 <= j < i && s[j] == c {
        let j = choose|j: int| 0 <= j < i && s[j] == c;
        lemma_first_index_exists(s, c, j);
    } else {
        assert(is_first_index(s, c, i));
    }
}

proof fn lemma_last_index_exists(s: Seq<char>, c: char, i: int)
    requires
        0 <= i < s.len(),
        s[i] == c,
    ensures
        is_last_index(s, c, last_index(s, c)),
    decreases s.len() - i,
{
    if exists|j: int| i < j < s.len() && s[j] == c {
        let j = choose|j: int| i < j < s.len() && s[j] == c;
        lemma_last_index_exists(s, c, j);
    } else {
        assert(is_last_index(s, c, i));
    }
}

} // verus!
