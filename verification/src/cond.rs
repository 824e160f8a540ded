//! Conditional processing attributes: `requiredExtensions`, `requiredFeatures`, `systemLanguage`.

use vstd::prelude::*;

use crate::accept_language::{
    language_tag_parses, user_language_matches, LanguageTags, Tag, UserLanguage,
};
use crate::error::ValueErrorKind;
use crate::strings::{
    chars_of, find_char_from, lemma_find_char, split_from, split_on, split_whitespace, str_eq,
    trim, trim_str, words,
};
use vstd::string::{StrSliceExecFns, StringExecFns};

verus! {

/// The extensions that are implemented: none at the moment.
pub open spec fn implemented_extensions() -> Set<Seq<char>> {
    Set::empty()
}

fn is_implemented_extension(_f: &str) -> (r: bool)
    ensures
        r == implemented_extensions().contains(_f@),
{
    false
}

/// Whether every word of `s` is in `table`.
pub open spec fn all_words_in(s: Seq<char>, table: Set<Seq<char>>) -> bool {
    forall|k: int| 0 <= k < words(s).len() ==> table.contains(#[trigger] words(s)[k])
}

#[derive(Debug, PartialEq, Eq, Structural)]
pub struct RequiredExtensions(pub bool);

impl RequiredExtensions {
    /// Parse a requiredExtensions attribute.
    ///
    /// <http://www.w3.org/TR/SVG/struct.html#RequiredExtensionsAttribute>
    pub fn from_attribute(s: &str) -> (r: Result<RequiredExtensions, ValueErrorKind>)
        ensures
            r matches Ok(e) && e.0 == all_words_in(s@, implemented_extensions()),
    {
        let ws = split_whitespace(s);
        let ghost m = ws@.map_values(|w: String| w@);
        let mut i: usize = 0;
        while i < ws.len()
            invariant
                i <= ws@.len(),
                m == ws@.map_values(|w: String| w@),
                m == words(s@),
                forall|k: int| 0 <= k < i ==> implemented_extensions().contains(#[trigger] m[k]),
            decreases ws@.len() - i,
        {
            if !is_implemented_extension(ws[i].as_str()) {
                assert(words(s@)[i as int] == m[i as int]);
                return Ok(RequiredExtensions(false));
            }
            i = i + 1;
        }
        Ok(RequiredExtensions(true))
    }

    /// Evaluate a requiredExtensions value for conditional processing.
    pub fn eval(&self) -> (r: bool)
        ensures
            r == self.0,
    {
        self.0
    }
}

/// The features that are implemented.
pub open spec fn implemented_features() -> Set<Seq<char>> {
    set![
        "http://www.w3.org/TR/SVG11/feature#BasicFilter"@,
        "http://www.w3.org/TR/SVG11/feature#BasicGraphicsAttribute"@,
        "http://www.w3.org/TR/SVG11/feature#BasicPaintAttribute"@,
        "http://www.w3.org/TR/SVG11/feature#BasicStructure"@,
        "http://www.w3.org/TR/SVG11/feature#BasicText"@,
        "http://www.w3.org/TR/SVG11/feature#ConditionalProcessing"@,
        "http://www.w3.org/TR/SVG11/feature#ContainerAttribute"@,
        "http://www.w3.org/TR/SVG11/feature#Filter"@,
        "http://www.w3.org/TR/SVG11/feature#Gradient"@,
        "http://www.w3.org/TR/SVG11/feature#Image"@,
        "http://www.w3.org/TR/SVG11/feature#Marker"@,
        "http://www.w3.org/TR/SVG11/feature#Mask"@,
        "http://www.w3.org/TR/SVG11/feature#OpacityAttribute"@,
        "http://www.w3.org/TR/SVG11/feature#Pattern"@,
        "http://www.w3.org/TR/SVG11/feature#SVG"@,
        "http://www.w3.org/TR/SVG11/feature#SVG-static"@,
        "http://www.w3.org/TR/SVG11/feature#Shape"@,
        "http://www.w3.org/TR/SVG11/feature#Structure"@,
        "http://www.w3.org/TR/SVG11/feature#Style"@,
        "http://www.w3.org/TR/SVG11/feature#View"@,
        "org.w3c.svg.static"@
    ]
}

fn is_implemented_feature(f: &str) -> (r: bool)
    ensures
        r == implemented_features().contains(f@),
{
    str_eq(f, "http://www.w3.org/TR/SVG11/feature#BasicFilter")
    || str_eq(f, "http://www.w3.org/TR/SVG11/feature#BasicGraphicsAttribute")
    || str_eq(f, "http://www.w3.org/TR/SVG11/feature#BasicPaintAttribute")
    || str_eq(f, "http://www.w3.org/TR/SVG11/feature#BasicStructure")
    || str_eq(f, "http://www.w3.org/TR/SVG11/feature#BasicText")
    || str_eq(f, "http://www.w3.org/TR/SVG11/feature#ConditionalProcessing")
    || str_eq(f, "http://www.w3.org/TR/SVG11/feature#ContainerAttribute")
    || str_eq(f, "http://www.w3.org/TR/SVG11/feature#Filter")
    || str_eq(f, "http://www.w3.org/TR/SVG11/feature#Gradient")
    || str_eq(f, "http://www.w3.org/TR/SVG11/feature#Image")
    || str_eq(f, "http://www.w3.org/TR/SVG11/feature#Marker")
    || str_eq(f, "http://www.w3.org/TR/SVG11/feature#Mask")
    || str_eq(f, "http://www.w3.org/TR/SVG11/feature#OpacityAttribute")
    || str_eq(f, "http://www.w3.org/TR/SVG11/feature#Pattern")
    || str_eq(f, "http://www.w3.org/TR/SVG11/feature#SVG")
    || str_eq(f, "http://www.w3.org/TR/SVG11/feature#SVG-static")
    || str_eq(f, "http://www.w3.org/TR/SVG11/feature#Shape")
    || str_eq(f, "http://www.w3.org/TR/SVG11/feature#Structure")
    || str_eq(f, "http://www.w3.org/TR/SVG11/feature#Style")
    || str_eq(f, "http://www.w3.org/TR/SVG11/feature#View")
    || str_eq(f, "org.w3c.svg.static")
}

#[derive(Debug, PartialEq, Eq, Structural)]
pub struct RequiredFeatures(pub bool);

impl RequiredFeatures {
    /// Parse a requiredFeatures attribute
    ///
    /// <http://www.w3.org/TR/SVG/struct.html#RequiredFeaturesAttribute>
    pub fn from_attribute(s: &str) -> (r: Result<RequiredFeatures, ValueErrorKind>)
        ensures
            r matches Ok(f) && f.0 == all_words_in(s@, implemented_features()),
    {
        let ws = split_whitespace(s);
        let ghost m = ws@.map_values(|w: String| w@);
        let mut i: usize = 0;
        while i < ws.len()
            invariant
                i <= ws@.len(),
                m == ws@.map_values(|w: String| w@),
                m == words(s@),
                forall|k: int| 0 <= k < i ==> implemented_features().contains(#[trigger] m[k]),
            decreases ws@.len() - i,
        {
            if !is_implemented_feature(ws[i].as_str()) {
                assert(words(s@)[i as int] == m[i as int]);
                return Ok(RequiredFeatures(false));
            }
            i = i + 1;
        }
        Ok(RequiredFeatures(true))
    }

    /// Evaluate a requiredFeatures value for conditional processing.
    pub fn eval(&self) -> (r: bool)
        ensures
            r == self.0,
    {
        self.0
    }
}


/// The language tags of a `systemLanguage` attribute: its comma-separated pieces, with
/// white space trimmed at both ends.
pub open spec fn system_language_tags(s: Seq<char>) -> Seq<Seq<char>> {
    split_on(s, ',').map_values(|p: Seq<char>| trim(p, true))
}

/// Whether every tag of a `systemLanguage` attribute is well-formed.
pub open spec fn system_language_ok(s: Seq<char>) -> bool {
    forall|k: int|
        0 <= k < system_language_tags(s).len() ==> language_tag_parses(
            #[trigger] system_language_tags(s)[k],
        )
}

pub struct SystemLanguage(LanguageTags);

impl SystemLanguage {
    /// The tags that the attribute lists.
    pub closed spec fn tags(&self) -> Seq<Seq<char>> {
        self.0@
    }

    /// Parse a `systemLanguage` attribute.
    ///
    /// The [`systemLanguage`] conditional attribute is a
    /// comma-separated list of [BCP47] Language Tags.  The result is matched against the
    /// user's languages with [`SystemLanguage::eval`].
    ///
    /// [`systemLanguage`]: https://www.w3.org/TR/SVG/struct.html#ConditionalProcessingSystemLanguageAttribute
    /// [BCP47]: http://www.ietf.org/rfc/bcp/bcp47.txt
    pub fn from_attribute(s: &str) -> (r: Result<SystemLanguage, ValueErrorKind>)
        ensures
            r is Ok <==> system_language_ok(s@),
            r matches Ok(sl) ==> sl.tags() == system_language_tags(s@),
            r matches Err(e) ==> e is Parse,
    {
        let chars = chars_of(s);
        let n = chars.len();
        let mut tags: Vec<Tag> = Vec::new();
        let ghost mut done: Seq<Seq<char>> = Seq::empty();
        let mut i: usize = 0;
        assert(split_on(s@, ',') =~= done + split_from(s@, ',', 0));
        loop
            invariant_except_break
                split_on(s@, ',') == done + split_from(s@, ',', i as nat),
            invariant
                chars@ == s@,
                n == chars@.len(),
                i <= n,
                tags@.map_values(|t: Tag| t@) == done.map_values(|p: Seq<char>| trim(p, true)),
                forall|k: int| 0 <= k < done.len() ==> language_tag_parses(trim(#[trigger] done[k], true)),
            ensures
                split_on(s@, ',') == done,
            decreases n - i,
        {
            let p = find_char_from(&chars, ',', i);
            proof {
                lemma_find_char(s@, ',', i as int);
            }
            let piece = s.substring_char(i, p);
            let t = trim_str(piece, true);
            let ghost rest = if p >= n {
                Seq::<Seq<char>>::empty()
            } else {
                split_from(s@, ',', (p + 1) as nat)
            };
            proof {
                assert(split_from(s@, ',', i as nat) =~= seq![piece@] + rest);
            }
            match Tag::parse(t) {
                Ok(tag) => {
                    let ghost before = tags@.map_values(|t: Tag| t@);
                    tags.push(tag);
                    proof {
                        assert(done.push(piece@).map_values(|p: Seq<char>| trim(p, true))
                            =~= done.map_values(|p: Seq<char>| trim(p, true)).push(t@));
                        assert(tags@.map_values(|t: Tag| t@) =~= before.push(t@));
                        assert(done + (seq![piece@] + rest) =~= done.push(piece@) + rest);
                        done = done.push(piece@);
                    }
                },
                Err(msg) => {
                    proof {
                        let all = split_on(s@, ',');
                        assert(all[done.len() as int] == piece@);
                        assert(system_language_tags(s@)[done.len() as int] == t@);
                    }
                    let mut text = String::from_str("invalid language tag: \"");
                    text.append(msg.as_str());
                    text.append("\"");
                    return Err(ValueErrorKind::parse_error(text.as_str()));
                },
            }
            if p >= n {
                assert(done + Seq::<Seq<char>>::empty() =~= done);
                break;
            }
            i = p + 1;
        }
        proof {
            assert forall|k: int|
                0 <= k < system_language_tags(s@).len() implies language_tag_parses(
                #[trigger] system_language_tags(s@)[k],
            ) by {
                assert(system_language_tags(s@)[k] == trim(done[k], true));
            }
        }
        Ok(SystemLanguage(LanguageTags::from(tags)))
    }

    /// Evaluate a systemLanguage value for conditional processing: whether the user's
    /// languages accept one of the tags.
    pub fn eval(&self, user_language: &UserLanguage) -> (r: bool)
        requires
            user_language_matches(*user_language, self.tags()) is Some,
        ensures
            r == user_language_matches(*user_language, self.tags()).unwrap(),
    {
        user_language.any_matches(&self.0)
    }

    /// Like [`SystemLanguage::eval`], for any languages: `None` where `eval` may not be
    /// called, because a tag that is not a language range would be matched.
    pub fn eval_checked(&self, user_language: &UserLanguage) -> (r: Option<bool>)
        ensures
            r == user_language_matches(*user_language, self.tags()),
    {
        user_language.any_matches_checked(&self.0)
    }
}

} // verus!
