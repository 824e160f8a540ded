//! Parser for an Accept-Language HTTP header, and matching of BCP47 language tags.

use vstd::prelude::*;


use crate::strings::{
    chars_of, find_char, find_char_from, lemma_find_char, split_from, split_on, trim, trim_str,
};
use vstd::string::StrSliceExecFns;

verus! {

#[verifier::external_type_specification]
#[verifier::external_body]
pub struct ExLanguageTag(language_tags::LanguageTag);

/// Whether `LanguageTag::parse` accepts `input`, that is, whether it is a "well-formed"
/// tag per RFC 5646.
pub uninterp spec fn language_tag_parses(input: Seq<char>) -> bool;

/// Whether the tag that `LanguageTag::parse` makes of `input` is a language range: it has
/// neither extension nor private-use subtags.
pub uninterp spec fn language_tag_is_range(input: Seq<char>) -> bool;

/// Whether the range that `LanguageTag::parse` makes of `range` matches the tag it makes
/// of `tag`, as `LanguageTag::matches` decides.
pub uninterp spec fn language_tag_matches(range: Seq<char>, tag: Seq<char>) -> bool;

/// `LanguageTag::parse`: it succeeds exactly on the inputs that `language_tag_parses`
/// names; nothing more is stated of the tag it builds, nor of the text of the error
/// (the error's `Display`) that it gives otherwise.
#[verifier::external_body]
fn parse_language_tag(input: &str) -> (r: Result<language_tags::LanguageTag, String>)
    ensures
        r is Ok <==> language_tag_parses(input@),
{
    match language_tags::LanguageTag::parse(input) {
        Ok(tag) => Ok(tag),
        Err(e) => Err(e.to_string()),
    }
}

/// `LanguageTag::is_language_range` on the tag held by `tag`, which is the tag parsed
/// from the text `tag@`.
#[verifier::external_body]
fn tag_is_language_range(tag: &Tag) -> (r: bool)
    ensures
        r == language_tag_is_range(tag@),
{
    tag.tag.is_language_range()
}

/// `LanguageTag::matches`, which panics unless `range` is a language range.
#[verifier::external_body]
fn tag_matches(range: &Tag, tag: &Tag) -> (r: bool)
    requires
        language_tag_is_range(range@),
    ensures
        r == language_tag_matches(range@, tag@),
{
    range.tag.matches(&tag.tag)
}

/// A language tag together with the text it was parsed from.  The view of a `Tag` is
/// that text; a `Tag` can only be made by [`Tag::parse`].
pub struct Tag {
    tag: language_tags::LanguageTag,
    text: Ghost<Seq<char>>,
}

impl View for Tag {
    type V = Seq<char>;

    closed spec fn view(&self) -> Seq<char> {
        self.text@
    }
}

impl Tag {
    /// Parses a language tag; on failure, gives the tag parser's message.
    pub fn parse(input: &str) -> (r: Result<Tag, String>)
        ensures
            r is Ok <==> language_tag_parses(input@),
            r matches Ok(t) ==> t@ == input@,
    {
        match parse_language_tag(input) {
            Ok(tag) => Ok(Tag { tag, text: Ghost(input@) }),
            Err(e) => Err(e),
        }
    }

    /// The language tag held, the one parsed from the text that is the view.
    pub closed spec fn language_tag(&self) -> language_tags::LanguageTag {
        self.tag
    }

    /// The parsed tag.
    pub fn get(&self) -> (r: &language_tags::LanguageTag)
        ensures
            *r == self.language_tag(),
    {
        &self.tag
    }
}

/// The result of `any` over `ranges` of "range matches `tag`", or `None` when a range
/// that is not a language range is reached first (`LanguageTag::matches` panics there).
pub open spec fn ranges_match(ranges: Seq<Seq<char>>, tag: Seq<char>) -> Option<bool>
    decreases ranges.len(),
{
    if ranges.len() == 0 {
        Some(false)
    } else if !language_tag_is_range(ranges[0]) {
        None
    } else if language_tag_matches(ranges[0], tag) {
        Some(true)
    } else {
        ranges_match(ranges.drop_first(), tag)
    }
}

/// The result of `any` over `tags` of "`range` matches the tag", or `None` when `range`
/// is not a language range and `tags` is not empty.
pub open spec fn range_matches_any(range: Seq<char>, tags: Seq<Seq<char>>) -> Option<bool> {
    if tags.len() == 0 {
        Some(false)
    } else if !language_tag_is_range(range) {
        None
    } else {
        Some(exists|i: int| 0 <= i < tags.len() && language_tag_matches(range, #[trigger] tags[i]))
    }
}

/// When no panic happens, `ranges_match` is whether some range matches the tag.
pub proof fn lemma_ranges_match(ranges: Seq<Seq<char>>, tag: Seq<char>)
    requires
        ranges_match(ranges, tag) is Some,
    ensures
        ranges_match(ranges, tag) == Some(
            exists|i: int| 0 <= i < ranges.len() && language_tag_matches(#[trigger] ranges[i], tag),
        ),
    decreases ranges.len(),
{
    if ranges.len() > 0 && !language_tag_matches(ranges[0], tag) {
        lemma_ranges_match(ranges.drop_first(), tag);
        if exists|i: int| 0 <= i < ranges.len() && language_tag_matches(#[trigger] ranges[i], tag) {
            let i = choose|i: int| 0 <= i < ranges.len() && language_tag_matches(#[trigger] ranges[i], tag);
            assert(ranges.drop_first()[i - 1] == ranges[i]);
        }
    }
}

/// A list of language tags, such as the user's preferred languages.
pub struct LanguageTags(Vec<Tag>);

impl View for LanguageTags {
    type V = Seq<Seq<char>>;

    closed spec fn view(&self) -> Seq<Seq<char>> {
        self.0@.map_values(|t: Tag| t@)
    }
}

impl LanguageTags {
    pub fn empty() -> (r: LanguageTags)
        ensures
            r@ == Seq::<Seq<char>>::empty(),
    {
        let r = LanguageTags(Vec::new());
        assert(r@ =~= Seq::<Seq<char>>::empty());
        r
    }

    pub fn from(tags: Vec<Tag>) -> (r: LanguageTags)
        ensures
            r@ == tags@.map_values(|t: Tag| t@),
    {
        LanguageTags(tags)
    }

    pub fn len(&self) -> (n: usize)
        ensures
            n == self@.len(),
    {
        self.0.len()
    }

    pub fn get(&self, i: usize) -> (t: &Tag)
        requires
            i < self@.len(),
        ensures
            t@ == self@[i as int],
    {
        &self.0[i]
    }

    /// Whether any of these tags, taken as a language range, matches `language_tag`.
    pub fn any_matches(&self, language_tag: &Tag) -> (r: bool)
        requires
            ranges_match(self@, language_tag@) is Some,
        ensures
            r == ranges_match(self@, language_tag@).unwrap(),
    {
        let mut i: usize = 0;
        assert(self@.skip(0) =~= self@);
        while i < self.0.len()
            invariant
                i <= self@.len(),
                self@.len() == self.0@.len(),
                self@ == self.0@.map_values(|t: Tag| t@),
                ranges_match(self@, language_tag@) is Some,
                ranges_match(self@, language_tag@) == ranges_match(
                    self@.skip(i as int),
                    language_tag@,
                ),
            decreases self@.len() - i,
        {
            assert(self@.skip(i as int)[0] == self.0@[i as int]@);
            assert(self@.skip(i as int).drop_first() =~= self@.skip(i + 1));
            if tag_matches(&self.0[i], language_tag) {
                return true;
            }
            i = i + 1;
        }
        false
    }

    /// Like [`LanguageTags::any_matches`], for any tags: `None` when a tag that is not a
    /// language range is reached before one that matches, where `any_matches` may not be
    /// called.
    pub fn any_matches_checked(&self, language_tag: &Tag) -> (r: Option<bool>)
        ensures
            r == ranges_match(self@, language_tag@),
    {
        let mut i: usize = 0;
        assert(self@.skip(0) =~= self@);
        while i < self.0.len()
            invariant
                i <= self@.len(),
                self@.len() == self.0@.len(),
                self@ == self.0@.map_values(|t: Tag| t@),
                ranges_match(self@, language_tag@) == ranges_match(
                    self@.skip(i as int),
                    language_tag@,
                ),
            decreases self@.len() - i,
        {
            assert(self@.skip(i as int)[0] == self.0@[i as int]@);
            assert(self@.skip(i as int).drop_first() =~= self@.skip(i + 1));
            if !tag_is_language_range(&self.0[i]) {
                return None;
            }
            if tag_matches(&self.0[i], language_tag) {
                return Some(true);
            }
            i = i + 1;
        }
        Some(false)
    }
}

/// The weight of a language in an Accept-Language header: the text of its `q` value, if
/// it has one.  That text is a decimal literal; its numeric value is the weight, and a
/// missing value counts as 1.
#[derive(Debug, Clone, PartialEq, Eq)]
pub struct Weight(pub Option<String>);

/// One language of an Accept-Language header.
pub struct Item {
    pub tag: Tag,
    pub weight: Weight,
}

/// What an item is in specifications: the text of its tag and the text of its weight.
pub type ItemView = (Seq<char>, Option<Seq<char>>);

impl Item {
    pub open spec fn view(&self) -> ItemView {
        (
            self.tag@,
            match self.weight.0 {
                Some(w) => Some(w@),
                None => None,
            },
        )
    }
}

/// Stores a parsed version of an HTTP Accept-Language header.
///
/// <https://datatracker.ietf.org/doc/html/rfc7231#section-5.3.5>
pub struct AcceptLanguage(Vec<Item>);

impl View for AcceptLanguage {
    type V = Seq<ItemView>;

    closed spec fn view(&self) -> Seq<ItemView> {
        self.0@.map_values(|it: Item| it.view())
    }
}

/// Errors when parsing an `AcceptLanguage`.
#[derive(Debug, PartialEq)]
pub enum Error {
    NoElements,
    InvalidCharacters,
    /// The language tag is not well-formed; this holds the tag parser's message.
    InvalidLanguageTag(String),
    InvalidWeight,
}

/// The kinds of [`Error`], for specifications.
#[derive(Debug, Clone, Copy, PartialEq, Eq, Structural)]
pub enum ErrorKind {
    NoElements,
    InvalidCharacters,
    InvalidLanguageTag,
    InvalidWeight,
}

impl Error {
    pub open spec fn kind(&self) -> ErrorKind {
        match self {
            Error::NoElements => ErrorKind::NoElements,
            Error::InvalidCharacters => ErrorKind::InvalidCharacters,
            Error::InvalidLanguageTag(_) => ErrorKind::InvalidLanguageTag,
            Error::InvalidWeight => ErrorKind::InvalidWeight,
        }
    }
}

pub open spec fn is_ascii_digit(c: char) -> bool {
    '0' <= c && c <= '9'
}

/// Whether `q`, the text after `q=`, is a quality value of RFC 7231 (section 5.3.1):
/// `0` or `1`, alone or with up to three decimals after a `.` (only zeros after a `1`).
pub open spec fn qvalue_ok(q: Seq<char>) -> bool {
    &&& q.len() > 0
    &&& (q[0] == '0' || q[0] == '1')
    &&& if q.len() > 1 && q[1] == '.' {
        let d = q.subrange(2, q.len() as int);
        ||| q[0] == '0' && d.len() <= 3 && forall|i: int| 0 <= i < d.len() ==> is_ascii_digit(#[trigger] d[i])
        ||| q[0] == '1' && d.len() <= 3 && forall|i: int| 0 <= i < d.len() ==> #[trigger] d[i] == '0'
    } else {
        q.len() == 1
    }
}

/// One item of the header, already trimmed: a language tag, then optionally `;`,
/// optional whitespace and `q=` with a quality value.
pub open spec fn item_spec(t: Seq<char>) -> Result<ItemView, ErrorKind> {
    let p = find_char(t, ';', 0);
    let before = t.subrange(0, p);
    if !language_tag_parses(before) {
        Err(ErrorKind::InvalidLanguageTag)
    } else if p >= t.len() {
        Ok((before, None))
    } else {
        let quality = crate::strings::trim_start(t.subrange(p + 1, t.len() as int), false);
        if quality.len() >= 2 && quality[0] == 'q' && quality[1] == '=' && qvalue_ok(
            quality.subrange(2, quality.len() as int),
        ) {
            Ok((before, Some(quality.subrange(2, quality.len() as int))))
        } else {
            Err(ErrorKind::InvalidWeight)
        }
    }
}

/// The items of the comma-separated `pieces`, skipping those that are empty once
/// trimmed, or the first error.
pub open spec fn collect_items(pieces: Seq<Seq<char>>) -> Result<Seq<ItemView>, ErrorKind>
    decreases pieces.len(),
{
    if pieces.len() == 0 {
        Ok(Seq::empty())
    } else {
        let t = trim(pieces[0], false);
        if t.len() == 0 {
            collect_items(pieces.drop_first())
        } else {
            match item_spec(t) {
                Err(k) => Err(k),
                Ok(it) => match collect_items(pieces.drop_first()) {
                    Ok(v) => Ok(seq![it] + v),
                    Err(k) => Err(k),
                },
            }
        }
    }
}

/// What parsing an Accept-Language header `s` gives.
pub open spec fn accept_language_spec(s: Seq<char>) -> Result<Seq<ItemView>, ErrorKind> {
    if !vstd::utf8::is_ascii_chars(s) {
        Err(ErrorKind::InvalidCharacters)
    } else {
        match collect_items(split_on(s, ',')) {
            Ok(v) => if v.len() == 0 {
                Err(ErrorKind::NoElements)
            } else {
                Ok(v)
            },
            Err(k) => Err(k),
        }
    }
}

fn all_ascii_digits(v: &Vec<char>, from: usize) -> (r: bool)
    requires
        from <= v@.len(),
    ensures
        r == forall|i: int| from <= i < v@.len() ==> is_ascii_digit(#[trigger] v@[i]),
{
    let mut i = from;
    while i < v.len()
        invariant
            from <= i <= v@.len(),
            forall|k: int| from <= k < i ==> is_ascii_digit(#[trigger] v@[k]),
        decreases v@.len() - i,
    {
        if !('0' <= v[i] && v[i] <= '9') {
            return false;
        }
        i = i + 1;
    }
    true
}

fn all_zeros(v: &Vec<char>, from: usize) -> (r: bool)
    requires
        from <= v@.len(),
    ensures
        r == forall|i: int| from <= i < v@.len() ==> #[trigger] v@[i] == '0',
{
    let mut i = from;
    while i < v.len()
        invariant
            from <= i <= v@.len(),
            forall|k: int| from <= k < i ==> #[trigger] v@[k] == '0',
        decreases v@.len() - i,
    {
        if v[i] != '0' {
            return false;
        }
        i = i + 1;
    }
    true
}

/// Checks a quality value (the text after `q=`).
fn qvalue_is_ok(q: &str) -> (r: bool)
    ensures
        r == qvalue_ok(q@),
{
    let v = chars_of(q);
    let n = v.len();
    if n == 0 || !(v[0] == '0' || v[0] == '1') {
        return false;
    }
    if n > 1 && v[1] == '.' {
        proof {
            let d = q@.subrange(2, n as int);
            assert forall|i: int| 0 <= i < d.len() implies d[i] == v@[i + 2] by {}
        }
        let digits_ok = all_ascii_digits(&v, 2);
        let zeros_ok = all_zeros(&v, 2);
        proof {
            let d = q@.subrange(2, n as int);
            assert(digits_ok == forall|i: int| 0 <= i < d.len() ==> is_ascii_digit(#[trigger] d[i]))
                by {
                if digits_ok {
                    assert forall|i: int| 0 <= i < d.len() implies is_ascii_digit(d[i]) by {
                        assert(is_ascii_digit(v@[i + 2]));
                    }
                } else {
                    let k = choose|k: int| 2 <= k < v@.len() && !is_ascii_digit(#[trigger] v@[k]);
                    assert(d[k - 2] == v@[k]);
                }
            }
            assert(zeros_ok == forall|i: int| 0 <= i < d.len() ==> #[trigger] d[i] == '0') by {
                if zeros_ok {
                    assert forall|i: int| 0 <= i < d.len() implies d[i] == '0' by {
                        assert(v@[i + 2] == '0');
                    }
                } else {
                    let k = choose|k: int| 2 <= k < v@.len() && #[trigger] v@[k] != '0';
                    assert(d[k - 2] == v@[k]);
                }
            }
        }
        (v[0] == '0' && n - 2 <= 3 && digits_ok) || (v[0] == '1' && n - 2 <= 3 && zeros_ok)
    } else {
        n == 1
    }
}

impl Item {
    /// Parses one trimmed, non-empty item of the header.
    fn parse(t: &str) -> (r: Result<Item, Error>)
        ensures
            match item_spec(t@) {
                Ok(it) => r matches Ok(item) && item.view() == it,
                Err(k) => r matches Err(e) && e.kind() == k,
            },
    {
        let v = chars_of(t);
        let n = v.len();
        let p = find_char_from(&v, ';', 0);
        proof {
            lemma_find_char(t@, ';', 0);
        }
        let before = t.substring_char(0, p);
        let tag = match Tag::parse(before) {
            Ok(tag) => tag,
            Err(e) => return Err(Error::InvalidLanguageTag(e)),
        };
        if p >= n {
            return Ok(Item { tag, weight: Weight(None) });
        }
        let after = t.substring_char(p + 1, n);
        let quality = trim_str_start_ows(after);
        let qv = chars_of(quality);
        let qn = qv.len();
        if qn >= 2 && qv[0] == 'q' && qv[1] == '=' {
            let number = quality.substring_char(2, qn);
            if qvalue_is_ok(number) {
                return Ok(Item { tag, weight: Weight(Some(number.to_owned())) });
            }
        }
        Err(Error::InvalidWeight)
    }
}

/// `t.trim_start_matches(&[' ', '\t'][..])`
fn trim_str_start_ows(t: &str) -> (r: &str)
    ensures
        r@ == crate::strings::trim_start(t@, false),
{
    let v = chars_of(t);
    let n = v.len();
    let mut a: usize = 0;
    assert(t@.subrange(0, n as int) =~= t@);
    while a < n && (v[a] == ' ' || v[a] == '\t')
        invariant
            v@ == t@,
            n == v@.len(),
            a <= n,
            crate::strings::trim_start(t@, false) == crate::strings::trim_start(
                t@.subrange(a as int, n as int),
                false,
            ),
        decreases n - a,
    {
        assert(t@.subrange(a as int, n as int).drop_first() =~= t@.subrange(a + 1, n as int));
        a = a + 1;
    }
    t.substring_char(a, n)
}

impl AcceptLanguage {
    /// Parses an Accept-Language header.
    pub fn parse(s: &str) -> (r: Result<AcceptLanguage, Error>)
        ensures
            match accept_language_spec(s@) {
                Ok(v) => r matches Ok(a) && a@ == v,
                Err(k) => r matches Err(e) && e.kind() == k,
            },
    {
        if !s.is_ascii() {
            return Err(Error::InvalidCharacters);
        }
        let chars = chars_of(s);
        let n = chars.len();
        let ghost total = collect_items(split_on(s@, ','));
        let mut items: Vec<Item> = Vec::new();
        let mut i: usize = 0;
        loop
            invariant_except_break
                total == match collect_items(split_from(s@, ',', i as nat)) {
                    Ok(v) => Ok(items@.map_values(|it: Item| it.view()) + v),
                    Err(k) => Err(k),
                },
            invariant
                vstd::utf8::is_ascii_chars(s@),
                chars@ == s@,
                n == chars@.len(),
                i <= n,
                total == collect_items(split_on(s@, ',')),
            ensures
                total == Ok::<Seq<ItemView>, ErrorKind>(items@.map_values(|it: Item| it.view())),
            decreases n - i,
        {
            let p = find_char_from(&chars, ',', i);
            proof {
                lemma_find_char(s@, ',', i as int);
            }
            let piece = s.substring_char(i, p);
            let t = trim_str(piece, false);
            let ghost rest = if p >= n {
                Seq::<Seq<char>>::empty()
            } else {
                split_from(s@, ',', (p + 1) as nat)
            };
            proof {
                assert(split_from(s@, ',', i as nat) =~= seq![s@.subrange(i as int, p as int)]
                    + rest);
                assert((seq![s@.subrange(i as int, p as int)] + rest).drop_first() =~= rest);
                assert(collect_items(split_from(s@, ',', i as nat)) == (if t@.len() == 0 {
                    collect_items(rest)
                } else {
                    match item_spec(t@) {
                        Err(k) => Err(k),
                        Ok(it) => match collect_items(rest) {
                            Ok(v) => Ok(seq![it] + v),
                            Err(k) => Err(k),
                        },
                    }
                }));
            }
            if t.unicode_len() != 0 {
                match Item::parse(t) {
                    Ok(item) => {
                        let ghost before = items@.map_values(|it: Item| it.view());
                        items.push(item);
                        proof {
                            assert(items@.map_values(|it: Item| it.view()) =~= before.push(
                                item.view(),
                            ));
                            match collect_items(rest) {
                                Ok(v) => {
                                    assert(before + (seq![item.view()] + v) =~= before.push(
                                        item.view(),
                                    ) + v);
                                },
                                Err(_) => {},
                            }
                        }
                    },
                    Err(e) => {
                        assert(item_spec(t@) == Err::<ItemView, ErrorKind>(e.kind()));
                        assert(collect_items(split_from(s@, ',', i as nat)) == Err::<
                            Seq<ItemView>,
                            ErrorKind,
                        >(e.kind()));
                        assert(total == Err::<Seq<ItemView>, ErrorKind>(e.kind()));
                        return Err(e);
                    },
                }
            }
            if p >= n {
                assert(collect_items(rest) == Ok::<Seq<ItemView>, ErrorKind>(Seq::empty()));
                assert(items@.map_values(|it: Item| it.view()) + Seq::<ItemView>::empty()
                    =~= items@.map_values(|it: Item| it.view()));
                break;
            }
            i = p + 1;
        }
        if items.len() == 0 {
            Err(Error::NoElements)
        } else {
            Ok(AcceptLanguage(items))
        }
    }

    pub fn len(&self) -> (n: usize)
        ensures
            n == self@.len(),
    {
        self.0.len()
    }

    pub fn get(&self, i: usize) -> (it: &Item)
        requires
            i < self@.len(),
        ensures
            it.view() == self@[i as int],
    {
        &self.0[i]
    }

    /// The tags of the items, in order.
    pub open spec fn tags(&self) -> Seq<Seq<char>> {
        self@.map_values(|it: ItemView| it.0)
    }

    /// Whether `tag`, taken as a language range, matches any of the header's languages.
    pub fn any_matches(&self, tag: &Tag) -> (r: bool)
        requires
            range_matches_any(tag@, self.tags()) is Some,
        ensures
            r == range_matches_any(tag@, self.tags()).unwrap(),
    {
        let mut i: usize = 0;
        while i < self.0.len()
            invariant
                i <= self@.len(),
                self@.len() == self.0@.len(),
                range_matches_any(tag@, self.tags()) is Some,
                forall|k: int| 0 <= k < i ==> !language_tag_matches(tag@, #[trigger] self.tags()[k]),
            decreases self@.len() - i,
        {
            assert(self.tags()[i as int] == self.0@[i as int].tag@);
            if tag_matches(tag, &self.0[i].tag) {
                return true;
            }
            i = i + 1;
        }
        false
    }

    /// Like [`AcceptLanguage::any_matches`], for any tag: `None` when the header is not
    /// empty and `tag` is not a language range, where `any_matches` may not be called.
    pub fn any_matches_checked(&self, tag: &Tag) -> (r: Option<bool>)
        ensures
            r == range_matches_any(tag@, self.tags()),
    {
        if self.0.len() == 0 {
            return Some(false);
        }
        if !tag_is_language_range(tag) {
            return None;
        }
        Some(self.any_matches(tag))
    }
}

/// The user's preferred languages, as a list of tags or as an Accept-Language header.
pub enum UserLanguage {
    LanguageTags(LanguageTags),
    AcceptLanguage(AcceptLanguage),
}

/// Whether any of `tags` is accepted by the user's languages, or `None` where
/// `LanguageTag::matches` would be reached on a tag that is not a language range.
pub open spec fn user_language_matches(user: UserLanguage, tags: Seq<Seq<char>>) -> Option<bool>
    decreases tags.len(),
{
    if tags.len() == 0 {
        Some(false)
    } else {
        let first = match user {
            UserLanguage::LanguageTags(lt) => ranges_match(lt@, tags[0]),
            UserLanguage::AcceptLanguage(al) => range_matches_any(tags[0], al.tags()),
        };
        match first {
            None => None,
            Some(true) => Some(true),
            Some(false) => user_language_matches(user, tags.drop_first()),
        }
    }
}

impl UserLanguage {
    /// Whether any of `tags` matches one of the user's languages.
    pub fn any_matches(&self, tags: &LanguageTags) -> (r: bool)
        requires
            user_language_matches(*self, tags@) is Some,
        ensures
            r == user_language_matches(*self, tags@).unwrap(),
    {
        let mut i: usize = 0;
        assert(tags@.skip(0) =~= tags@);
        while i < tags.len()
            invariant
                i <= tags@.len(),
                user_language_matches(*self, tags@) == user_language_matches(
                    *self,
                    tags@.skip(i as int),
                ),
                user_language_matches(*self, tags@) is Some,
            decreases tags@.len() - i,
        {
            let t = tags.get(i);
            assert(tags@.skip(i as int)[0] == tags@[i as int]);
            assert(tags@.skip(i as int).drop_first() =~= tags@.skip(i + 1));
            let found = match self {
                UserLanguage::LanguageTags(lt) => lt.any_matches(t),
                UserLanguage::AcceptLanguage(al) => al.any_matches(t),
            };
            if found {
                return true;
            }
            i = i + 1;
        }
        false
    }

    /// Like [`UserLanguage::any_matches`], for any tags: `None` where `any_matches` may
    /// not be called, because a tag that is not a language range would be matched.
    pub fn any_matches_checked(&self, tags: &LanguageTags) -> (r: Option<bool>)
        ensures
            r == user_language_matches(*self, tags@),
    {
        let mut i: usize = 0;
        assert(tags@.skip(0) =~= tags@);
        while i < tags.len()
            invariant
                i <= tags@.len(),
                user_language_matches(*self, tags@) == user_language_matches(
                    *self,
                    tags@.skip(i as int),
                ),
            decreases tags@.len() - i,
        {
            let t = tags.get(i);
            assert(tags@.skip(i as int)[0] == tags@[i as int]);
            assert(tags@.skip(i as int).drop_first() =~= tags@.skip(i + 1));
            let found = match self {
                UserLanguage::LanguageTags(lt) => lt.any_matches_checked(t),
                UserLanguage::AcceptLanguage(al) => al.any_matches_checked(t),
            };
            match found {
                None => return None,
                Some(true) => return Some(true),
                Some(false) => {},
            }
            i = i + 1;
        }
        Some(false)
    }
}

} // verus!
