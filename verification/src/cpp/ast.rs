//! The C++ target AST: case-neutral names, fully-qualified names,
//! type expressions, classes, enum-classes, unions and namespaces.

use vstd::prelude::*;
use crate::strutil::{
    char_vecs_eq, chars_string, check_reserved_seq, join_chars, join_seq, lower_seq, lower_vec,
    name_tokens_spec, seq_views, str_chars, strs_views, upper_seq, upper_vec,
};
use crate::util::clone_value_vec;

verus! {

pub type Id = u64;

/// The casing convention under which a name renders by default.
#[derive(Clone, Copy, Debug, PartialEq, Eq, Structural, Hash)]
pub enum NameCase {
    SnakeCase,
    ScreamingSnakeCase,
    UpperCamelCase,
    LowerCamelCase,
    Fixed,
}

/// The model of a name: its word tokens, as character sequences.
pub struct NameV {
    pub tokens: Seq<Seq<char>>,
    pub case: NameCase,
}

/// A case-neutral identifier: an ordered sequence of word tokens. Rendering
/// into a specific casing convention is a pure function of the tokens.
#[derive(Debug, Eq, Hash)]
pub struct Name {
    pub tokens: Vec<String>,
    pub case: NameCase,
}

impl View for Name {
    type V = NameV;

    open spec fn view(&self) -> NameV {
        NameV { tokens: strs_of_strings(self.tokens@), case: self.case }
    }
}

/// The views of a sequence of strings.
pub open spec fn strs_of_strings(ts: Seq<String>) -> Seq<Seq<char>> {
    ts.map_values(|t: String| t@)
}

impl Clone for Name {
    fn clone(&self) -> (r: Self)
        ensures
            r@ == self@,
    {
        let r = Name { tokens: clone_value_vec(&self.tokens), case: self.case };
        proof {
            assert(strs_of_strings(r.tokens@) =~= strs_of_strings(self.tokens@));
        }
        r
    }
}

impl PartialEq for Name {
    fn eq(&self, other: &Name) -> (r: bool) {
        if self.tokens.len() != other.tokens.len() {
            proof {
                assert(self@.tokens.len() != other@.tokens.len());
            }
            return false;
        }
        if self.case != other.case {
            return false;
        }
        let mut i: usize = 0;
        while i < self.tokens.len()
            invariant
                i <= self.tokens.len(),
                self.tokens@.len() == other.tokens@.len(),
                forall|j: int| 0 <= j < i ==> self.tokens@[j]@ == other.tokens@[j]@,
            decreases self.tokens.len() - i,
        {
            if !self.tokens[i].eq(&other.tokens[i]) {
                proof {
                    assert(self@.tokens[i as int] != other@.tokens[i as int]);
                }
                return false;
            }
            i += 1;
        }
        proof {
            assert(strs_of_strings(self.tokens@) =~= strs_of_strings(other.tokens@));
            assert(self@ == other@);
        }
        true
    }
}

impl vstd::std_specs::cmp::PartialEqSpecImpl for Name {
    open spec fn obeys_eq_spec() -> bool {
        true
    }

    open spec fn eq_spec(&self, other: &Name) -> bool {
        self@ == other@
    }
}

/// What a reserved-word check yields: the rendered string, with an
/// underscore appended when it collides with a reserved word.
pub open spec fn checked_spec(s: Seq<char>, reserved: Seq<Seq<char>>) -> Seq<char> {
    check_reserved_seq(s, reserved)
}

/// Every token lowercased.
pub open spec fn lowered_tokens(tokens: Seq<Seq<char>>) -> Seq<Seq<char>> {
    tokens.map_values(|t: Seq<char>| lower_seq(t))
}

/// Every token uppercased.
pub open spec fn uppered_tokens(tokens: Seq<Seq<char>>) -> Seq<Seq<char>> {
    tokens.map_values(|t: Seq<char>| upper_seq(t))
}

/// Every token capitalized.
pub open spec fn capped_tokens(tokens: Seq<Seq<char>>) -> Seq<Seq<char>> {
    tokens.map_values(|t: Seq<char>| cap_spec(t))
}

/// The snake_case rendering of a name's tokens.
pub open spec fn snake_spec(tokens: Seq<Seq<char>>, reserved: Seq<Seq<char>>) -> Seq<char> {
    checked_spec(join_seq(lowered_tokens(tokens), seq!['_']), reserved)
}

/// The SCREAMING_SNAKE rendering of a name's tokens.
pub open spec fn screaming_spec(tokens: Seq<Seq<char>>, reserved: Seq<Seq<char>>) -> Seq<char> {
    checked_spec(join_seq(uppered_tokens(tokens), seq!['_']), reserved)
}

/// A single token capitalized: first character uppercased, rest lowercased.
pub open spec fn cap_spec(t: Seq<char>) -> Seq<char> {
    if t.len() == 0 {
        Seq::empty()
    } else {
        crate::strutil::upper_chars(t[0]) + lower_seq(t.skip(1))
    }
}

/// The UpperCamelCase rendering of a name's tokens.
pub open spec fn upper_camel_spec(tokens: Seq<Seq<char>>, reserved: Seq<Seq<char>>) -> Seq<char> {
    checked_spec(join_seq(capped_tokens(tokens), Seq::empty()), reserved)
}

/// The lowerCamelCase rendering of a name's tokens: the first token fully
/// lowercased, the rest capitalized. An empty name renders empty, with no
/// reserved-word check.
pub open spec fn lower_camel_spec(tokens: Seq<Seq<char>>, reserved: Seq<Seq<char>>) -> Seq<char> {
    if tokens.len() == 0 {
        Seq::empty()
    } else {
        checked_spec(
            lower_seq(tokens[0]) + join_seq(capped_tokens(tokens.skip(1)), Seq::empty()),
            reserved,
        )
    }
}

/// The fixed rendering: tokens concatenated unchanged.
pub open spec fn fixed_spec(tokens: Seq<Seq<char>>) -> Seq<char> {
    join_seq(tokens, Seq::empty())
}

/// The default rendering of a name under its own casing convention,
/// with no reserved words.
pub open spec fn render_spec(n: NameV) -> Seq<char> {
    match n.case {
        NameCase::Fixed => fixed_spec(n.tokens),
        NameCase::LowerCamelCase => lower_camel_spec(n.tokens, Seq::empty()),
        NameCase::UpperCamelCase => upper_camel_spec(n.tokens, Seq::empty()),
        NameCase::ScreamingSnakeCase => screaming_spec(n.tokens, Seq::empty()),
        NameCase::SnakeCase => snake_spec(n.tokens, Seq::empty()),
    }
}

impl Name {
    /// Splits `name` into word tokens: sanitizes path and plus characters,
    /// then starts a new token wherever an uppercase character follows a
    /// lowercase one.
    pub fn from(name: &str) -> (r: Name)
        ensures
            r@ == (NameV { tokens: name_tokens_spec(name@), case: NameCase::Fixed }),
    {
        let sanitized = crate::strutil::sanitize_chars(&str_chars(name));
        let toks = crate::strutil::tokenize_chars(&sanitized);
        let mut tokens: Vec<String> = Vec::new();
        let mut i: usize = 0;
        while i < toks.len()
            invariant
                i <= toks.len(),
                tokens@.len() == i,
                forall|j: int| 0 <= j < i ==> tokens@[j]@ == toks@[j]@,
            decreases toks.len() - i,
        {
            let t = chars_string(&toks[i]);
            tokens.push(t);
            i += 1;
        }
        proof {
            assert(strs_of_strings(tokens@) =~= seq_views(toks@));
        }
        Name { tokens, case: NameCase::Fixed }
    }

    /// A copy of this name with one more token, unchanged, at the front.
    pub fn with_prepended(&self, prepended_token: &str) -> (r: Name)
        ensures
            r@ == (NameV { tokens: seq![prepended_token@] + self@.tokens, case: self@.case }),
    {
        let mut tokens: Vec<String> = Vec::new();
        let first = prepended_token.to_string();
        proof {
            vstd::string::to_string_from_display_ensures_for_str(prepended_token, first);
        }
        tokens.push(first);
        let mut i: usize = 0;
        while i < self.tokens.len()
            invariant
                i <= self.tokens.len(),
                tokens@.len() == i + 1,
                tokens@[0]@ == prepended_token@,
                forall|j: int| 0 <= j < i ==> tokens@[j + 1]@ == self.tokens@[j]@,
            decreases self.tokens.len() - i,
        {
            let t = self.tokens[i].clone();
            tokens.push(t);
            i += 1;
        }
        proof {
            assert(strs_of_strings(tokens@) =~= seq![prepended_token@] + strs_of_strings(
                self.tokens@,
            ));
        }
        Name { tokens, case: self.case }
    }

    /// Appends an underscore when the rendered string is a reserved word.
    pub fn check_reserved(s: String, reserved: &[&str]) -> (r: String)
        ensures
            r@ == checked_spec(s@, strs_views(reserved@)),
    {
        let sc = str_chars(s.as_str());
        let mut i: usize = 0;
        while i < reserved.len()
            invariant
                i <= reserved@.len(),
                sc@ == s@,
                forall|j: int| 0 <= j < i ==> strs_views(reserved@)[j] != s@,
            decreases reserved@.len() - i,
        {
            let rc = str_chars(reserved[i]);
            if char_vecs_eq(&sc, &rc) {
                proof {
                    assert(strs_views(reserved@)[i as int] == s@);
                    assert(strs_views(reserved@).contains(s@));
                }
                let mut out = sc;
                out.push('_');
                return chars_string(&out);
            }
            i += 1;
        }
        proof {
            assert(strs_views(reserved@).len() == reserved@.len());
            assert(!strs_views(reserved@).contains(s@));
        }
        s
    }

    /// Renders the tokens in snake_case.
    pub fn to_snake_case(&self, reserved: &[&str]) -> (r: String)
        ensures
            r@ == snake_spec(self@.tokens, strs_views(reserved@)),
    {
        let mut parts: Vec<Vec<char>> = Vec::new();
        let mut i: usize = 0;
        while i < self.tokens.len()
            invariant
                i <= self.tokens.len(),
                parts@.len() == i,
                forall|j: int| 0 <= j < i ==> parts@[j]@ == lower_seq(self.tokens@[j]@),
            decreases self.tokens.len() - i,
        {
            let tc = str_chars(self.tokens[i].as_str());
            let lowered = lower_vec(&tc);
            parts.push(lowered);
            i += 1;
        }
        proof {
            assert(seq_views(parts@) =~= lowered_tokens(self@.tokens));
        }
        let mut sep: Vec<char> = Vec::new();
        sep.push('_');
        let joined = join_chars(&parts, &sep);
        Name::check_reserved(chars_string(&joined), reserved)
    }

    /// Renders the tokens in SCREAMING_SNAKE_CASE.
    pub fn to_screaming_snake_case(&self, reserved: &[&str]) -> (r: String)
        ensures
            r@ == screaming_spec(self@.tokens, strs_views(reserved@)),
    {
        let mut parts: Vec<Vec<char>> = Vec::new();
        let mut i: usize = 0;
        while i < self.tokens.len()
            invariant
                i <= self.tokens.len(),
                parts@.len() == i,
                forall|j: int| 0 <= j < i ==> parts@[j]@ == upper_seq(self.tokens@[j]@),
            decreases self.tokens.len() - i,
        {
            let tc = str_chars(self.tokens[i].as_str());
            let uppered = upper_vec(&tc);
            parts.push(uppered);
            i += 1;
        }
        proof {
            assert(seq_views(parts@) =~= uppered_tokens(self@.tokens));
        }
        let mut sep: Vec<char> = Vec::new();
        sep.push('_');
        let joined = join_chars(&parts, &sep);
        Name::check_reserved(chars_string(&joined), reserved)
    }

    /// Capitalizes one token: first character uppercased, rest lowercased.
    fn capitalize_token(t: &Vec<char>) -> (r: Vec<char>)
        ensures
            r@ == cap_spec(t@),
    {
        if t.len() == 0 {
            let r: Vec<char> = Vec::new();
            return r;
        }
        let mut r = crate::strutil::upper_char(t[0]);
        let mut rest: Vec<char> = Vec::new();
        let mut i: usize = 1;
        while i < t.len()
            invariant
                1 <= i <= t.len(),
                t@.len() >= 1,
                rest@ =~= t@.subrange(1, i as int),
            decreases t.len() - i,
        {
            rest.push(t[i]);
            i += 1;
        }
        proof {
            assert(rest@ =~= t@.skip(1));
        }
        let mut lowered = lower_vec(&rest);
        r.append(&mut lowered);
        r
    }

    /// Renders the tokens in UpperCamelCase.
    pub fn to_upper_camel_case(&self, reserved: &[&str]) -> (r: String)
        ensures
            r@ == upper_camel_spec(self@.tokens, strs_views(reserved@)),
    {
        let mut parts: Vec<Vec<char>> = Vec::new();
        let mut i: usize = 0;
        while i < self.tokens.len()
            invariant
                i <= self.tokens.len(),
                parts@.len() == i,
                forall|j: int| 0 <= j < i ==> parts@[j]@ == cap_spec(self.tokens@[j]@),
            decreases self.tokens.len() - i,
        {
            let tc = str_chars(self.tokens[i].as_str());
            let capped = Name::capitalize_token(&tc);
            parts.push(capped);
            i += 1;
        }
        proof {
            assert(seq_views(parts@) =~= capped_tokens(self@.tokens));
        }
        let sep: Vec<char> = Vec::new();
        let joined = join_chars(&parts, &sep);
        Name::check_reserved(chars_string(&joined), reserved)
    }

    /// Renders the tokens in lowerCamelCase.
    pub fn to_lower_camel_case(&self, reserved: &[&str]) -> (r: String)
        ensures
            r@ == lower_camel_spec(self@.tokens, strs_views(reserved@)),
    {
        if self.tokens.len() == 0 {
            return String::new();
        }
        let head = str_chars(self.tokens[0].as_str());
        let mut out = lower_vec(&head);
        let mut parts: Vec<Vec<char>> = Vec::new();
        let mut i: usize = 1;
        while i < self.tokens.len()
            invariant
                1 <= i <= self.tokens.len(),
                self.tokens@.len() >= 1,
                parts@.len() == i - 1,
                forall|j: int| 0 <= j < i - 1 ==> parts@[j]@ == cap_spec(self.tokens@[j + 1]@),
            decreases self.tokens.len() - i,
        {
            let tc = str_chars(self.tokens[i].as_str());
            let capped = Name::capitalize_token(&tc);
            parts.push(capped);
            i += 1;
        }
        proof {
            assert(seq_views(parts@) =~= capped_tokens(self@.tokens.skip(1)));
        }
        let sep: Vec<char> = Vec::new();
        let mut joined = join_chars(&parts, &sep);
        out.append(&mut joined);
        Name::check_reserved(chars_string(&out), reserved)
    }

    /// Renders the tokens unchanged, concatenated.
    pub fn to_fixed_case(&self) -> (r: String)
        ensures
            r@ == fixed_spec(self@.tokens),
    {
        let mut parts: Vec<Vec<char>> = Vec::new();
        let mut i: usize = 0;
        while i < self.tokens.len()
            invariant
                i <= self.tokens.len(),
                parts@.len() == i,
                forall|j: int| 0 <= j < i ==> parts@[j]@ == self.tokens@[j]@,
            decreases self.tokens.len() - i,
        {
            let tc = str_chars(self.tokens[i].as_str());
            parts.push(tc);
            i += 1;
        }
        proof {
            assert(seq_views(parts@) =~= self@.tokens);
        }
        let sep: Vec<char> = Vec::new();
        let joined = join_chars(&parts, &sep);
        chars_string(&joined)
    }

    /// Renders the name under its own casing convention.
    pub fn to_string(&self) -> (r: String)
        ensures
            r@ == render_spec(self@),
    {
        match self.case {
            NameCase::Fixed => self.to_fixed_case(),
            NameCase::LowerCamelCase => self.to_lower_camel_case(&[]),
            NameCase::UpperCamelCase => self.to_upper_camel_case(&[]),
            NameCase::ScreamingSnakeCase => self.to_screaming_snake_case(&[]),
            NameCase::SnakeCase => self.to_snake_case(&[]),
        }
    }
}

/// The views of a sequence of names.
pub open spec fn names_views(ns: Seq<Name>) -> Seq<NameV> {
    ns.map_values(|n: Name| n@)
}

/// A path of names from the compilation root to a definition.
#[derive(Debug, Eq)]
pub struct FullyQualifiedName {
    pub names: Vec<Name>,
}

impl View for FullyQualifiedName {
    type V = Seq<NameV>;

    open spec fn view(&self) -> Seq<NameV> {
        names_views(self.names@)
    }
}

impl Clone for FullyQualifiedName {
    fn clone(&self) -> (r: Self)
        ensures
            r@ == self@,
    {
        let names = crate::util::clone_view_vec(&self.names);
        proof {
            assert(names_views(names@) =~= names_views(self.names@));
        }
        FullyQualifiedName { names }
    }
}

impl PartialEq for FullyQualifiedName {
    fn eq(&self, other: &FullyQualifiedName) -> (r: bool) {
        if self.names.len() != other.names.len() {
            proof {
                assert(self@.len() != other@.len());
            }
            return false;
        }
        let mut i: usize = 0;
        while i < self.names.len()
            invariant
                i <= self.names.len(),
                self.names@.len() == other.names@.len(),
                forall|j: int| 0 <= j < i ==> self.names@[j]@ == other.names@[j]@,
            decreases self.names.len() - i,
        {
            if !self.names[i].eq(&other.names[i]) {
                proof {
                    assert(self@[i as int] != other@[i as int]);
                }
                return false;
            }
            i += 1;
        }
        proof {
            assert(self@ =~= other@);
        }
        true
    }
}

impl vstd::std_specs::cmp::PartialEqSpecImpl for FullyQualifiedName {
    open spec fn obeys_eq_spec() -> bool {
        true
    }

    open spec fn eq_spec(&self, other: &FullyQualifiedName) -> bool {
        self@ == other@
    }
}

impl FullyQualifiedName {
    /// The empty path.
    pub fn empty() -> (r: Self)
        ensures
            r@ == Seq::<NameV>::empty(),
    {
        let r = FullyQualifiedName { names: Vec::new() };
        proof {
            assert(r@ =~= Seq::<NameV>::empty());
        }
        r
    }

    /// Builds a path by splitting each element into a name of its own.
    pub fn from(names: Vec<&str>) -> (r: Self)
        ensures
            r@.len() == names@.len(),
            forall|i: int|
                0 <= i < names@.len() ==> r@[i] == (NameV {
                    tokens: name_tokens_spec(names@[i]@),
                    case: NameCase::Fixed,
                }),
    {
        let mut out: Vec<Name> = Vec::new();
        let mut i: usize = 0;
        while i < names.len()
            invariant
                i <= names.len(),
                out@.len() == i,
                forall|j: int|
                    0 <= j < i ==> out@[j]@ == (NameV {
                        tokens: name_tokens_spec(names@[j]@),
                        case: NameCase::Fixed,
                    }),
            decreases names.len() - i,
        {
            let n = Name::from(names[i]);
            out.push(n);
            i += 1;
        }
        let r = FullyQualifiedName { names: out };
        proof {
            assert(r@.len() == names@.len());
        }
        r
    }

    /// This path with one more name at the front.
    pub fn with_prepended(&self, name: &Name) -> (r: FullyQualifiedName)
        ensures
            r@ == seq![name@] + self@,
    {
        let mut names: Vec<Name> = Vec::new();
        names.push(name.clone());
        let mut i: usize = 0;
        while i < self.names.len()
            invariant
                i <= self.names.len(),
                names@.len() == i + 1,
                names@[0]@ == name@,
                forall|j: int| 0 <= j < i ==> names@[j + 1]@ == self.names@[j]@,
            decreases self.names.len() - i,
        {
            let n = self.names[i].clone();
            names.push(n);
            i += 1;
        }
        let r = FullyQualifiedName { names };
        proof {
            assert(r@ =~= seq![name@] + self@);
        }
        r
    }

    /// This path with one more name at the end.
    pub fn with_appended(&self, name: &Name) -> (r: FullyQualifiedName)
        ensures
            r@ == self@.push(name@),
    {
        let mut names = crate::util::clone_view_vec(&self.names);
        names.push(name.clone());
        let r = FullyQualifiedName { names };
        proof {
            assert(r@ =~= self@.push(name@));
        }
        r
    }

    /// The first name of the path, if any.
    pub fn head(&self) -> (r: Option<&Name>)
        ensures
            match r {
                Some(n) => self@.len() > 0 && n@ == self@[0],
                None => self@.len() == 0,
            },
    {
        if self.names.len() == 0 {
            None
        } else {
            Some(&self.names[0])
        }
    }

    /// The path without its first name.
    pub fn tail(&self) -> (r: FullyQualifiedName)
        requires
            self@.len() >= 1,
        ensures
            r@ == self@.skip(1),
    {
        let mut names: Vec<Name> = Vec::new();
        let mut i: usize = 1;
        while i < self.names.len()
            invariant
                1 <= i <= self.names.len(),
                self.names@.len() >= 1,
                names@.len() == i - 1,
                forall|j: int| 0 <= j < i - 1 ==> names@[j]@ == self.names@[j + 1]@,
            decreases self.names.len() - i,
        {
            let n = self.names[i].clone();
            names.push(n);
            i += 1;
        }
        let r = FullyQualifiedName { names };
        proof {
            assert(r@ =~= self@.skip(1));
        }
        r
    }

    /// The path without its last name; the empty path stays empty.
    pub fn parent(&self) -> (r: FullyQualifiedName)
        ensures
            r@ == if self@.len() == 0 {
                self@
            } else {
                self@.take(self@.len() - 1)
            },
    {
        let mut names: Vec<Name> = Vec::new();
        if self.names.len() == 0 {
            let r = FullyQualifiedName { names };
            proof {
                assert(r@ =~= self@);
            }
            return r;
        }
        let mut i: usize = 0;
        while i < self.names.len() - 1
            invariant
                self.names@.len() >= 1,
                i <= self.names@.len() - 1,
                names@.len() == i,
                forall|j: int| 0 <= j < i ==> names@[j]@ == self.names@[j]@,
            decreases self.names.len() - i,
        {
            let n = self.names[i].clone();
            names.push(n);
            i += 1;
        }
        let r = FullyQualifiedName { names };
        proof {
            assert(r@ =~= self@.take(self@.len() - 1));
        }
        r
    }

    /// The last name of the path, if any.
    pub fn last(&self) -> (r: Option<&Name>)
        ensures
            match r {
                Some(n) => self@.len() > 0 && n@ == self@.last(),
                None => self@.len() == 0,
            },
    {
        if self.names.len() == 0 {
            None
        } else {
            Some(&self.names[self.names.len() - 1])
        }
    }

    /// Whether `prefix` is an initial segment of this path.
    pub fn is_prefixed_by(&self, prefix: &FullyQualifiedName) -> (r: bool)
        ensures
            r == prefix@.is_prefix_of(self@),
    {
        if self.names.len() < prefix.names.len() {
            proof {
                assert(!prefix@.is_prefix_of(self@));
            }
            return false;
        }
        let mut i: usize = 0;
        while i < prefix.names.len()
            invariant
                i <= prefix.names@.len(),
                prefix.names@.len() <= self.names@.len(),
                forall|j: int| 0 <= j < i ==> self.names@[j]@ == prefix.names@[j]@,
            decreases prefix.names.len() - i,
        {
            if !self.names[i].eq(&prefix.names[i]) {
                proof {
                    assert(self@[i as int] != prefix@[i as int]);
                    assert(!prefix@.is_prefix_of(self@));
                }
                return false;
            }
            i += 1;
        }
        proof {
            assert(prefix@ =~= self@.subrange(0, prefix@.len() as int));
        }
        true
    }
}

/// The model of a C++ type expression.
pub enum CppTypeV {
    Void,
    Bool,
    Char,
    Short,
    Int,
    Long,
    UChar,
    UShort,
    UInt,
    ULong,
    Float,
    Double,
    String,
    Vector(Box<CppTypeV>),
    RefId(Id),
}

/// A C++ type expression; `RefId` refers to another definition by its
/// schema node id until code emission resolves it.
#[derive(Debug, PartialEq, Eq)]
pub enum CppType {
    Void,
    Bool,
    Char,
    Short,
    Int,
    Long,
    UChar,
    UShort,
    UInt,
    ULong,
    Float,
    Double,
    String,
    Vector(Box<CppType>),
    RefId(Id),
}

impl View for CppType {
    type V = CppTypeV;

    open spec fn view(&self) -> CppTypeV
        decreases self,
    {
        match self {
            CppType::Void => CppTypeV::Void,
            CppType::Bool => CppTypeV::Bool,
            CppType::Char => CppTypeV::Char,
            CppType::Short => CppTypeV::Short,
            CppType::Int => CppTypeV::Int,
            CppType::Long => CppTypeV::Long,
            CppType::UChar => CppTypeV::UChar,
            CppType::UShort => CppTypeV::UShort,
            CppType::UInt => CppTypeV::UInt,
            CppType::ULong => CppTypeV::ULong,
            CppType::Float => CppTypeV::Float,
            CppType::Double => CppTypeV::Double,
            CppType::String => CppTypeV::String,
            CppType::Vector(t) => CppTypeV::Vector(Box::new((**t)@)),
            CppType::RefId(id) => CppTypeV::RefId(*id),
        }
    }
}

impl Clone for CppType {
    fn clone(&self) -> (r: Self)
        ensures
            r@ == self@,
        decreases *self,
    {
        match self {
            CppType::Void => CppType::Void,
            CppType::Bool => CppType::Bool,
            CppType::Char => CppType::Char,
            CppType::Short => CppType::Short,
            CppType::Int => CppType::Int,
            CppType::Long => CppType::Long,
            CppType::UChar => CppType::UChar,
            CppType::UShort => CppType::UShort,
            CppType::UInt => CppType::UInt,
            CppType::ULong => CppType::ULong,
            CppType::Float => CppType::Float,
            CppType::Double => CppType::Double,
            CppType::String => CppType::String,
            CppType::Vector(t) => CppType::Vector(Box::new((**t).clone())),
            CppType::RefId(id) => CppType::RefId(*id),
        }
    }
}

/// The model of an enum-class definition.
pub struct EnumClassV {
    pub id: Id,
    pub name: NameV,
    pub enumerants: Seq<NameV>,
}

/// A C++ `enum class`: a name and its enumerant names.
#[derive(Debug, PartialEq, Eq)]
pub struct EnumClass {
    pub id: Id,
    pub name: Name,
    pub enumerants: Vec<Name>,
}

impl View for EnumClass {
    type V = EnumClassV;

    open spec fn view(&self) -> EnumClassV {
        EnumClassV { id: self.id, name: self.name@, enumerants: names_views(self.enumerants@) }
    }
}

impl Clone for EnumClass {
    fn clone(&self) -> (r: Self)
        ensures
            r@ == self@,
    {
        let enumerants = crate::util::clone_view_vec(&self.enumerants);
        proof {
            assert(names_views(enumerants@) =~= names_views(self.enumerants@));
        }
        EnumClass { id: self.id, name: self.name.clone(), enumerants }
    }
}

/// The model of a class field.
pub struct FieldV {
    pub name: NameV,
    pub cpp_type: CppTypeV,
}

/// One data member of a class or union.
#[derive(Debug, PartialEq, Eq)]
pub struct Field {
    pub name: Name,
    pub cpp_type: CppType,
}

impl View for Field {
    type V = FieldV;

    open spec fn view(&self) -> FieldV {
        FieldV { name: self.name@, cpp_type: self.cpp_type@ }
    }
}

impl Clone for Field {
    fn clone(&self) -> (r: Self)
        ensures
            r@ == self@,
    {
        Field { name: self.name.clone(), cpp_type: self.cpp_type.clone() }
    }
}

/// The views of a sequence of fields.
pub open spec fn fields_views(fs: Seq<Field>) -> Seq<FieldV> {
    fs.map_values(|f: Field| f@)
}

/// The model of an unnamed union.
pub struct UnnamedUnionV {
    pub id: Id,
    pub fields: Seq<FieldV>,
}

/// The anonymous union of a partial-union class: the mutually exclusive
/// payload fields.
#[derive(Debug, PartialEq, Eq)]
pub struct UnnamedUnion {
    pub id: Id,
    pub fields: Vec<Field>,
}

impl View for UnnamedUnion {
    type V = UnnamedUnionV;

    open spec fn view(&self) -> UnnamedUnionV {
        UnnamedUnionV { id: self.id, fields: fields_views(self.fields@) }
    }
}

impl Clone for UnnamedUnion {
    fn clone(&self) -> (r: Self)
        ensures
            r@ == self@,
    {
        let fields = crate::util::clone_view_vec(&self.fields);
        proof {
            assert(fields_views(fields@) =~= fields_views(self.fields@));
        }
        UnnamedUnion { id: self.id, fields }
    }
}

/// The model of a class definition.
pub struct ClassV {
    pub id: Id,
    pub name: NameV,
    pub inner_types: Seq<ComplexTypeDefV>,
    pub union: Option<UnnamedUnionV>,
    pub fields: Seq<FieldV>,
}

/// The model of a complex type definition.
pub enum ComplexTypeDefV {
    EnumClass(EnumClassV),
    Class(ClassV),
}

/// A C++ class: its inner type definitions, an optional anonymous union,
/// and its data members.
#[derive(Debug, PartialEq, Eq)]
pub struct Class {
    pub id: Id,
    pub name: Name,
    pub inner_types: Vec<ComplexTypeDef>,
    pub union: Option<UnnamedUnion>,
    pub fields: Vec<Field>,
}

/// A definition of a complex type: an enum-class or a class.
#[derive(Debug, PartialEq, Eq)]
pub enum ComplexTypeDef {
    EnumClass(EnumClass),
    Class(Class),
}

/// The views of a vector of complex type definitions.
pub open spec fn ctd_views(v: Vec<ComplexTypeDef>, i: int) -> Seq<ComplexTypeDefV>
    decreases v, v@.len() - i,
{
    if i < 0 || i >= v@.len() {
        Seq::empty()
    } else {
        seq![v@[i]@] + ctd_views(v, i + 1)
    }
}

impl View for Class {
    type V = ClassV;

    open spec fn view(&self) -> ClassV
        decreases self,
    {
        ClassV {
            id: self.id,
            name: self.name@,
            inner_types: ctd_views(self.inner_types, 0),
            union: match &self.union {
                Some(u) => Some(u@),
                None => None,
            },
            fields: fields_views(self.fields@),
        }
    }
}

impl View for ComplexTypeDef {
    type V = ComplexTypeDefV;

    open spec fn view(&self) -> ComplexTypeDefV
        decreases self,
    {
        match self {
            ComplexTypeDef::EnumClass(e) => ComplexTypeDefV::EnumClass(e@),
            ComplexTypeDef::Class(c) => ComplexTypeDefV::Class(c@),
        }
    }
}

pub proof fn lemma_ctd_views_index(v: Vec<ComplexTypeDef>, i: int)
    requires
        0 <= i <= v@.len(),
    ensures
        ctd_views(v, i).len() == v@.len() - i,
        forall|j: int| 0 <= j < v@.len() - i ==> ctd_views(v, i)[j] == v@[i + j]@,
    decreases v@.len() - i,
{
    if i < v@.len() {
        lemma_ctd_views_index(v, i + 1);
        assert(ctd_views(v, i) == seq![v@[i]@] + ctd_views(v, i + 1));
        assert(ctd_views(v, i).len() == v@.len() - i);
        assert forall|j: int| 0 <= j < v@.len() - i implies ctd_views(v, i)[j] == v@[i + j]@ by {
            assert(ctd_views(v, i) == seq![v@[i]@] + ctd_views(v, i + 1));
            if j > 0 {
                assert(ctd_views(v, i)[j] == ctd_views(v, i + 1)[j - 1]);
            }
        }
    } else {
        assert(ctd_views(v, i) == Seq::<ComplexTypeDefV>::empty());
    }
}

impl Clone for Class {
    fn clone(&self) -> (r: Self)
        ensures
            r@ == self@,
        decreases *self,
    {
        let mut inner: Vec<ComplexTypeDef> = Vec::new();
        let mut i: usize = 0;
        while i < self.inner_types.len()
            invariant
                i <= self.inner_types.len(),
                inner@.len() == i,
                forall|j: int| 0 <= j < i ==> inner@[j]@ == self.inner_types@[j]@,
            decreases self.inner_types.len() - i,
        {
            proof {
                assert(decreases_to!(*self => self.inner_types));
                assert(decreases_to!(self.inner_types => self.inner_types@[i as int]));
            }
            let c = self.inner_types[i].clone();
            inner.push(c);
            i += 1;
        }
        let union = match &self.union {
            Some(u) => Some(u.clone()),
            None => None,
        };
        let fields = crate::util::clone_view_vec(&self.fields);
        let r = Class {
            id: self.id,
            name: self.name.clone(),
            inner_types: inner,
            union,
            fields,
        };
        proof {
            lemma_ctd_views_index(r.inner_types, 0);
            lemma_ctd_views_index(self.inner_types, 0);
            assert(ctd_views(r.inner_types, 0) =~= ctd_views(self.inner_types, 0));
            assert(fields_views(r.fields@) =~= fields_views(self.fields@));
        }
        r
    }
}

impl Clone for ComplexTypeDef {
    fn clone(&self) -> (r: Self)
        ensures
            r@ == self@,
        decreases *self,
    {
        match self {
            ComplexTypeDef::EnumClass(e) => ComplexTypeDef::EnumClass(e.clone()),
            ComplexTypeDef::Class(c) => ComplexTypeDef::Class(c.clone()),
        }
    }
}

impl ComplexTypeDef {
    /// The schema node id of the definition.
    pub fn id(&self) -> (r: Id)
        ensures
            r == ctd_id(self@),
    {
        match self {
            ComplexTypeDef::EnumClass(e) => e.id,
            ComplexTypeDef::Class(c) => c.id,
        }
    }

    /// The name of the definition.
    pub fn name(&self) -> (r: &Name)
        ensures
            r@ == ctd_name(self@),
    {
        match self {
            ComplexTypeDef::EnumClass(e) => &e.name,
            ComplexTypeDef::Class(c) => &c.name,
        }
    }
}

/// The id of a complex type definition.
pub open spec fn ctd_id(d: ComplexTypeDefV) -> Id {
    match d {
        ComplexTypeDefV::EnumClass(e) => e.id,
        ComplexTypeDefV::Class(c) => c.id,
    }
}

/// The name of a complex type definition.
pub open spec fn ctd_name(d: ComplexTypeDefV) -> NameV {
    match d {
        ComplexTypeDefV::EnumClass(e) => e.name,
        ComplexTypeDefV::Class(c) => c.name,
    }
}

/// The model of a namespace: its definitions, in order, and its named
/// child namespaces, in insertion order with no repeated name.
pub struct NamespaceV {
    pub defs: Seq<ComplexTypeDefV>,
    pub namespaces: Seq<(NameV, NamespaceV)>,
}

/// A namespace: an ordered list of type definitions and a map from child
/// names to child namespaces, kept as a vector of pairs in insertion order
/// so that iteration is deterministic; names never repeat.
#[derive(Debug, PartialEq)]
pub struct Namespace {
    pub defs: Vec<ComplexTypeDef>,
    pub namespaces: Vec<(Name, Namespace)>,
}

/// The views of a vector of name/namespace pairs.
pub open spec fn ns_pairs_views(v: Vec<(Name, Namespace)>, i: int) -> Seq<(NameV, NamespaceV)>
    decreases v, v@.len() - i,
{
    if i < 0 || i >= v@.len() {
        Seq::empty()
    } else {
        seq![(v@[i].0@, v@[i].1@)] + ns_pairs_views(v, i + 1)
    }
}

impl View for Namespace {
    type V = NamespaceV;

    open spec fn view(&self) -> NamespaceV
        decreases self,
    {
        NamespaceV { defs: ctd_views(self.defs, 0), namespaces: ns_pairs_views(self.namespaces, 0) }
    }
}

pub proof fn lemma_ns_pairs_views_index(v: Vec<(Name, Namespace)>, i: int)
    requires
        0 <= i <= v@.len(),
    ensures
        ns_pairs_views(v, i).len() == v@.len() - i,
        forall|j: int|
            0 <= j < v@.len() - i ==> ns_pairs_views(v, i)[j] == (v@[i + j].0@, v@[i + j].1@),
    decreases v@.len() - i,
{
    if i < v@.len() {
        lemma_ns_pairs_views_index(v, i + 1);
        assert(ns_pairs_views(v, i) == seq![(v@[i].0@, v@[i].1@)] + ns_pairs_views(v, i + 1));
        assert forall|j: int|
            0 <= j < v@.len() - i implies ns_pairs_views(v, i)[j] == (
        v@[i + j].0@,
        v@[i + j].1@,
        ) by {
            assert(ns_pairs_views(v, i) == seq![(v@[i].0@, v@[i].1@)] + ns_pairs_views(v, i + 1));
            if j > 0 {
                assert(ns_pairs_views(v, i)[j] == ns_pairs_views(v, i + 1)[j - 1]);
            }
        }
    } else {
        assert(ns_pairs_views(v, i) == Seq::<(NameV, NamespaceV)>::empty());
    }
}

/// The model of the empty namespace.
pub open spec fn empty_ns_v() -> NamespaceV {
    NamespaceV { defs: Seq::empty(), namespaces: Seq::empty() }
}

/// The position of the first pair holding key `k`, or `-1`.
pub open spec fn key_index(pairs: Seq<(NameV, NamespaceV)>, k: NameV) -> int
    decreases pairs.len(),
{
    if pairs.len() == 0 {
        -1
    } else if pairs[0].0 == k {
        0
    } else {
        let r = key_index(pairs.skip(1), k);
        if r < 0 {
            -1
        } else {
            r + 1
        }
    }
}

/// The child namespace under key `k`, if any.
pub open spec fn pairs_child(pairs: Seq<(NameV, NamespaceV)>, k: NameV) -> Option<NamespaceV> {
    if key_index(pairs, k) >= 0 {
        Some(pairs[key_index(pairs, k)].1)
    } else {
        None
    }
}

pub proof fn lemma_key_index(pairs: Seq<(NameV, NamespaceV)>, k: NameV)
    ensures
        key_index(pairs, k) == -1 ==> forall|j: int| 0 <= j < pairs.len() ==> pairs[j].0 != k,
        key_index(pairs, k) >= 0 ==> {
            &&& key_index(pairs, k) < pairs.len()
            &&& pairs[key_index(pairs, k)].0 == k
            &&& forall|j: int| 0 <= j < key_index(pairs, k) ==> pairs[j].0 != k
        },
    decreases pairs.len(),
{
    if pairs.len() > 0 && pairs[0].0 != k {
        lemma_key_index(pairs.skip(1), k);
        let r = key_index(pairs.skip(1), k);
        if r >= 0 {
            assert(pairs[r + 1] == pairs.skip(1)[r]);
            assert forall|j: int| 0 <= j < r + 1 implies pairs[j].0 != k by {
                if j > 0 {
                    assert(pairs[j] == pairs.skip(1)[j - 1]);
                }
            }
        } else {
            assert forall|j: int| 0 <= j < pairs.len() implies pairs[j].0 != k by {
                if j > 0 {
                    assert(pairs[j] == pairs.skip(1)[j - 1]);
                }
            }
        }
    }
}

pub proof fn lemma_key_index_first_match(pairs: Seq<(NameV, NamespaceV)>, k: NameV, i: int)
    requires
        0 <= i < pairs.len(),
        pairs[i].0 == k,
        forall|j: int| 0 <= j < i ==> pairs[j].0 != k,
    ensures
        key_index(pairs, k) == i,
    decreases i,
{
    if i > 0 {
        assert(pairs[0].0 != k);
        assert(pairs.skip(1)[i - 1] == pairs[i]);
        assert forall|j: int| 0 <= j < i - 1 implies pairs.skip(1)[j].0 != k by {
            assert(pairs.skip(1)[j] == pairs[j + 1]);
        }
        lemma_key_index_first_match(pairs.skip(1), k, i - 1);
    }
}

pub proof fn lemma_key_index_no_match(pairs: Seq<(NameV, NamespaceV)>, k: NameV)
    requires
        forall|j: int| 0 <= j < pairs.len() ==> pairs[j].0 != k,
    ensures
        key_index(pairs, k) == -1,
    decreases pairs.len(),
{
    if pairs.len() > 0 {
        assert forall|j: int| 0 <= j < pairs.skip(1).len() implies pairs.skip(1)[j].0 != k by {
            assert(pairs.skip(1)[j] == pairs[j + 1]);
        }
        lemma_key_index_no_match(pairs.skip(1), k);
    }
}

/// The namespace reached from `n` along `path`, if every step exists.
pub open spec fn ns_get(n: NamespaceV, path: Seq<NameV>) -> Option<NamespaceV>
    decreases path.len(),
{
    if path.len() == 0 {
        Some(n)
    } else {
        match pairs_child(n.namespaces, path[0]) {
            Some(c) => ns_get(c, path.skip(1)),
            None => None,
        }
    }
}

/// `n` with the whole chain `path` of child namespaces present: existing
/// children are descended into in place, missing ones are appended empty.
pub open spec fn ns_ensure(n: NamespaceV, path: Seq<NameV>) -> NamespaceV
    decreases path.len(),
{
    if path.len() == 0 {
        n
    } else {
        let k = path[0];
        let i = key_index(n.namespaces, k);
        if i >= 0 {
            NamespaceV {
                defs: n.defs,
                namespaces: n.namespaces.update(
                    i,
                    (k, ns_ensure(n.namespaces[i].1, path.skip(1))),
                ),
            }
        } else {
            NamespaceV {
                defs: n.defs,
                namespaces: n.namespaces.push((k, ns_ensure(empty_ns_v(), path.skip(1)))),
            }
        }
    }
}

/// `n` with `d` appended to the definitions of the namespace at `path`;
/// unchanged if the path does not exist.
pub open spec fn ns_push_def(n: NamespaceV, path: Seq<NameV>, d: ComplexTypeDefV) -> NamespaceV
    decreases path.len(),
{
    if path.len() == 0 {
        NamespaceV { defs: n.defs.push(d), namespaces: n.namespaces }
    } else {
        let i = key_index(n.namespaces, path[0]);
        if i >= 0 {
            NamespaceV {
                defs: n.defs,
                namespaces: n.namespaces.update(
                    i,
                    (path[0], ns_push_def(n.namespaces[i].1, path.skip(1), d)),
                ),
            }
        } else {
            n
        }
    }
}

impl Clone for Namespace {
    fn clone(&self) -> (r: Self)
        ensures
            r@ == self@,
        decreases *self,
    {
        let mut defs: Vec<ComplexTypeDef> = Vec::new();
        let mut i: usize = 0;
        while i < self.defs.len()
            invariant
                i <= self.defs.len(),
                defs@.len() == i,
                forall|j: int| 0 <= j < i ==> defs@[j]@ == self.defs@[j]@,
            decreases self.defs.len() - i,
        {
            let d = self.defs[i].clone();
            defs.push(d);
            i += 1;
        }
        let mut namespaces: Vec<(Name, Namespace)> = Vec::new();
        let mut j: usize = 0;
        while j < self.namespaces.len()
            invariant
                j <= self.namespaces.len(),
                namespaces@.len() == j,
                forall|m: int|
                    0 <= m < j ==> namespaces@[m].0@ == self.namespaces@[m].0@ && namespaces@[m].1@
                        == self.namespaces@[m].1@,
            decreases self.namespaces.len() - j,
        {
            proof {
                assert(decreases_to!(*self => self.namespaces));
                assert(decreases_to!(self.namespaces => self.namespaces@[j as int]));
                assert(decreases_to!(self.namespaces@[j as int] => self.namespaces@[j as int].1));
            }
            let k = self.namespaces[j].0.clone();
            let c = self.namespaces[j].1.clone();
            namespaces.push((k, c));
            j += 1;
        }
        let r = Namespace { defs, namespaces };
        proof {
            lemma_ctd_views_index(r.defs, 0);
            lemma_ctd_views_index(self.defs, 0);
            assert(ctd_views(r.defs, 0) =~= ctd_views(self.defs, 0));
            lemma_ns_pairs_views_index(r.namespaces, 0);
            lemma_ns_pairs_views_index(self.namespaces, 0);
            assert(ns_pairs_views(r.namespaces, 0) =~= ns_pairs_views(self.namespaces, 0));
        }
        r
    }
}

impl Namespace {
    /// The namespace with no definitions and no children.
    pub fn empty() -> (r: Namespace)
        ensures
            r@ == empty_ns_v(),
    {
        let r = Namespace { defs: Vec::new(), namespaces: Vec::new() };
        proof {
            assert(ctd_views(r.defs, 0) =~= Seq::<ComplexTypeDefV>::empty());
            assert(ns_pairs_views(r.namespaces, 0) =~= Seq::<(NameV, NamespaceV)>::empty());
        }
        r
    }

    /// The position of the child named `key`, if any.
    fn find_child(&self, key: &Name) -> (r: Option<usize>)
        ensures
            match r {
                Some(i) => {
                    &&& i < self.namespaces@.len()
                    &&& self.namespaces@[i as int].0@ == key@
                    &&& forall|j: int| 0 <= j < i ==> self.namespaces@[j].0@ != key@
                },
                None => forall|j: int|
                    0 <= j < self.namespaces@.len() ==> self.namespaces@[j].0@ != key@,
            },
    {
        let mut i: usize = 0;
        while i < self.namespaces.len()
            invariant
                i <= self.namespaces@.len(),
                forall|j: int| 0 <= j < i ==> self.namespaces@[j].0@ != key@,
            decreases self.namespaces.len() - i,
        {
            if self.namespaces[i].0.eq(key) {
                return Some(i);
            }
            i += 1;
        }
        None
    }

    /// Whether the whole chain `name` of child namespaces exists under
    /// this namespace.
    pub fn contains_namespace(&self, name: &FullyQualifiedName) -> (r: bool)
        ensures
            r == ns_get(self@, name@).is_some(),
        decreases name@.len(),
    {
        if name.names.len() == 0 {
            return true;
        }
        proof {
            lemma_ns_pairs_views_index(self.namespaces, 0);
        }
        match self.find_child(&name.names[0]) {
            Some(i) => {
                proof {
                    lemma_key_index_first_match(self@.namespaces, name@[0], i as int);
                }
                let t = name.tail();
                self.namespaces[i].1.contains_namespace(&t)
            },
            None => {
                proof {
                    lemma_key_index_no_match(self@.namespaces, name@[0]);
                }
                false
            },
        }
    }

    /// The namespace at `name` under this one, if it exists.
    pub fn get_namespace(&self, name: &FullyQualifiedName) -> (r: Option<&Namespace>)
        ensures
            match r {
                Some(ns) => ns_get(self@, name@) == Some(ns@),
                None => ns_get(self@, name@) is None,
            },
        decreases name@.len(),
    {
        if name.names.len() == 0 {
            return Some(self);
        }
        proof {
            lemma_ns_pairs_views_index(self.namespaces, 0);
        }
        match self.find_child(&name.names[0]) {
            Some(i) => {
                proof {
                    lemma_key_index_first_match(self@.namespaces, name@[0], i as int);
                }
                let t = name.tail();
                self.namespaces[i].1.get_namespace(&t)
            },
            None => {
                proof {
                    lemma_key_index_no_match(self@.namespaces, name@[0]);
                }
                None
            },
        }
    }
}

/// The views of a sequence of fully-qualified names.
pub open spec fn fqns_views(rs: Seq<FullyQualifiedName>) -> Seq<Seq<NameV>> {
    rs.map_values(|f: FullyQualifiedName| f@)
}

/// Every path of `l` with `k` prepended.
pub open spec fn prepend_all(k: NameV, l: Seq<Seq<NameV>>) -> Seq<Seq<NameV>> {
    l.map_values(|f: Seq<NameV>| seq![k] + f)
}

/// The paths of all namespaces under the pairs from position `i` on:
/// for each child, its own namespaces prefixed by its name, then the
/// child itself.
pub open spec fn list_pairs(pairs: Seq<(NameV, NamespaceV)>, i: int) -> Seq<Seq<NameV>>
    decreases pairs, pairs.len() - i,
{
    if i < 0 || i >= pairs.len() {
        Seq::empty()
    } else {
        prepend_all(pairs[i].0, list_spec(pairs[i].1)) + seq![seq![pairs[i].0]] + list_pairs(
            pairs,
            i + 1,
        )
    }
}

/// The paths of all namespaces under `n`, in traversal order.
pub open spec fn list_spec(n: NamespaceV) -> Seq<Seq<NameV>>
    decreases n,
{
    list_pairs(n.namespaces, 0)
}

pub proof fn lemma_ns_ensure_get(n: NamespaceV, path: Seq<NameV>)
    ensures
        ns_get(ns_ensure(n, path), path).is_some(),
    decreases path.len(),
{
    if path.len() > 0 {
        let k = path[0];
        let i = key_index(n.namespaces, k);
        lemma_key_index(n.namespaces, k);
        if i >= 0 {
            let e = ns_ensure(n.namespaces[i].1, path.skip(1));
            let updated = n.namespaces.update(i, (k, e));
            lemma_key_index_first_match(updated, k, i);
            lemma_ns_ensure_get(n.namespaces[i].1, path.skip(1));
        } else {
            let e = ns_ensure(empty_ns_v(), path.skip(1));
            let pushed = n.namespaces.push((k, e));
            assert(pushed[n.namespaces.len() as int].0 == k);
            lemma_key_index_first_match(pushed, k, n.namespaces.len() as int);
            lemma_ns_ensure_get(empty_ns_v(), path.skip(1));
        }
    }
}

impl Namespace {
    /// Lists the paths of every namespace in the tree, children first
    /// within each entry, in deterministic traversal order.
    pub fn list_namespaces(&self) -> (r: Vec<FullyQualifiedName>)
        ensures
            fqns_views(r@) == list_spec(self@),
        decreases *self,
    {
        let mut ret: Vec<FullyQualifiedName> = Vec::new();
        let mut i: usize = 0;
        proof {
            lemma_ns_pairs_views_index(self.namespaces, 0);
        }
        while i < self.namespaces.len()
            invariant
                i <= self.namespaces.len(),
                ns_pairs_views(self.namespaces, 0).len() == self.namespaces@.len(),
                forall|j: int|
                    0 <= j < self.namespaces@.len() ==> ns_pairs_views(self.namespaces, 0)[j] == (
                    self.namespaces@[j].0@,
                    self.namespaces@[j].1@,
                    ),
                fqns_views(ret@) + list_pairs(self@.namespaces, i as int) =~= list_spec(self@),
            decreases self.namespaces.len() - i,
        {
            proof {
                assert(decreases_to!(*self => self.namespaces));
                assert(decreases_to!(self.namespaces => self.namespaces@[i as int]));
                assert(decreases_to!(self.namespaces@[i as int] => self.namespaces@[i as int].1));
            }
            let child_list = self.namespaces[i].1.list_namespaces();
            let ghost base = fqns_views(ret@);
            let ghost kv = self.namespaces@[i as int].0@;
            let mut m: usize = 0;
            while m < child_list.len()
                invariant
                    m <= child_list.len(),
                    i < self.namespaces@.len(),
                    kv == self.namespaces@[i as int].0@,
                    ret@.len() == base.len() + m,
                    forall|j: int| 0 <= j < base.len() ==> ret@[j]@ == base[j],
                    forall|j: int|
                        0 <= j < m ==> ret@[base.len() + j]@ == seq![kv] + child_list@[j]@,
                decreases child_list.len() - m,
            {
                let f = child_list[m].with_prepended(&self.namespaces[i].0);
                ret.push(f);
                m += 1;
            }
            let mut single: Vec<Name> = Vec::new();
            single.push(self.namespaces[i].0.clone());
            let single_fqn = FullyQualifiedName { names: single };
            proof {
                assert(single_fqn@ =~= seq![kv]);
            }
            ret.push(single_fqn);
            proof {
                let child_v = self.namespaces@[i as int].1@;
                assert(fqns_views(child_list@) == list_spec(child_v));
                assert(fqns_views(ret@) =~= base + prepend_all(kv, fqns_views(child_list@))
                    + seq![seq![kv]]);
                assert(self@.namespaces[i as int] == (kv, child_v));
                assert(list_pairs(self@.namespaces, i as int) == prepend_all(kv, list_spec(child_v))
                    + seq![seq![kv]] + list_pairs(self@.namespaces, i + 1));
                assert(fqns_views(ret@) + list_pairs(self@.namespaces, i + 1) =~= (base + (
                prepend_all(kv, list_spec(child_v)) + seq![seq![kv]] + list_pairs(
                    self@.namespaces,
                    i + 1,
                ))));
                assert((base + (prepend_all(kv, list_spec(child_v)) + seq![seq![kv]] + list_pairs(
                    self@.namespaces,
                    i + 1,
                ))) =~= (base + list_pairs(self@.namespaces, i as int)));
            }
            i += 1;
        }
        proof {
            assert(list_pairs(self@.namespaces, self.namespaces@.len() as int)
                =~= Seq::<Seq<NameV>>::empty());
            assert(fqns_views(ret@) =~= list_spec(self@));
        }
        ret
    }

    /// The tree rebuilt with the chain `name`, from position `pos` on,
    /// present under it.
    fn ensured(self, name: &FullyQualifiedName, pos: usize) -> (r: Namespace)
        requires
            pos <= name@.len(),
        ensures
            r@ == ns_ensure(self@, name@.skip(pos as int)),
        decreases name@.len() - pos,
    {
        proof {
            assert(name@.len() == name.names@.len());
        }
        if pos == name.names.len() {
            proof {
                assert(name@.skip(pos as int) =~= Seq::<NameV>::empty());
            }
            return self;
        }
        proof {
            lemma_ns_pairs_views_index(self.namespaces, 0);
            assert(name@.skip(pos as int)[0] == name@[pos as int]);
            assert(name@.skip(pos as int).skip(1) =~= name@.skip(pos as int + 1));
        }
        let found = self.find_child(&name.names[pos]);
        let ghost old_self = self@;
        let ghost k = name@[pos as int];
        match found {
            Some(i) => {
                proof {
                    lemma_key_index_first_match(old_self.namespaces, k, i as int);
                }
                let mut me = self;
                let pair = me.namespaces.remove(i);
                let child2 = pair.1.ensured(name, pos + 1);
                me.namespaces.insert(i, (pair.0, child2));
                proof {
                    lemma_ns_pairs_views_index(me.namespaces, 0);
                    assert(ns_pairs_views(me.namespaces, 0) =~= old_self.namespaces.update(
                        i as int,
                        (k, ns_ensure(old_self.namespaces[i as int].1, name@.skip(pos as int + 1))),
                    ));
                    assert(me@ == ns_ensure(old_self, name@.skip(pos as int)));
                }
                me
            },
            None => {
                proof {
                    lemma_key_index_no_match(old_self.namespaces, k);
                }
                let sub = Namespace::empty().ensured(name, pos + 1);
                let mut me = self;
                let key = name.names[pos].clone();
                me.namespaces.push((key, sub));
                proof {
                    lemma_ns_pairs_views_index(me.namespaces, 0);
                    assert(ns_pairs_views(me.namespaces, 0) =~= old_self.namespaces.push(
                        (k, ns_ensure(empty_ns_v(), name@.skip(pos as int + 1))),
                    ));
                    assert(me@ == ns_ensure(old_self, name@.skip(pos as int)));
                }
                me
            },
        }
    }

    /// Makes sure the whole chain `name` of child namespaces exists,
    /// creating empty namespaces where needed.
    pub fn get_or_create_namespace_mut(&mut self, name: &FullyQualifiedName)
        ensures
            final(self)@ == ns_ensure(old(self)@, name@),
            ns_get(final(self)@, name@).is_some(),
    {
        let mut tmp = Namespace::empty();
        core::mem::swap(self, &mut tmp);
        let ghost orig = tmp@;
        let mut done = tmp.ensured(name, 0);
        proof {
            assert(name@.skip(0) =~= name@);
            lemma_ns_ensure_get(orig, name@);
        }
        core::mem::swap(self, &mut done);
    }

    /// The tree rebuilt with `def` appended to the definitions of the
    /// namespace reached along `name` from position `pos`.
    fn pushed_def(self, name: &FullyQualifiedName, pos: usize, def: ComplexTypeDef) -> (r:
        Namespace)
        requires
            pos <= name@.len(),
        ensures
            r@ == ns_push_def(self@, name@.skip(pos as int), def@),
        decreases name@.len() - pos,
    {
        proof {
            assert(name@.len() == name.names@.len());
        }
        if pos == name.names.len() {
            proof {
                assert(name@.skip(pos as int) =~= Seq::<NameV>::empty());
            }
            let ghost old_self = self@;
            proof {
                lemma_ctd_views_index(self.defs, 0);
            }
            let mut me = self;
            me.defs.push(def);
            proof {
                lemma_ctd_views_index(me.defs, 0);
                assert(ctd_views(me.defs, 0) =~= old_self.defs.push(def@));
                assert(me@ == ns_push_def(old_self, Seq::empty(), def@));
            }
            return me;
        }
        proof {
            lemma_ns_pairs_views_index(self.namespaces, 0);
            assert(name@.skip(pos as int)[0] == name@[pos as int]);
            assert(name@.skip(pos as int).skip(1) =~= name@.skip(pos as int + 1));
        }
        let found = self.find_child(&name.names[pos]);
        let ghost old_self = self@;
        let ghost k = name@[pos as int];
        match found {
            Some(i) => {
                proof {
                    lemma_key_index_first_match(old_self.namespaces, k, i as int);
                }
                let mut me = self;
                let pair = me.namespaces.remove(i);
                let child2 = pair.1.pushed_def(name, pos + 1, def);
                me.namespaces.insert(i, (pair.0, child2));
                proof {
                    lemma_ns_pairs_views_index(me.namespaces, 0);
                    assert(ns_pairs_views(me.namespaces, 0) =~= old_self.namespaces.update(
                        i as int,
                        (
                            k,
                            ns_push_def(
                                old_self.namespaces[i as int].1,
                                name@.skip(pos as int + 1),
                                def@,
                            ),
                        ),
                    ));
                    assert(me@ == ns_push_def(old_self, name@.skip(pos as int), def@));
                }
                me
            },
            None => {
                proof {
                    lemma_key_index_no_match(old_self.namespaces, k);
                }
                self
            },
        }
    }

    /// Appends `def` to the definitions of the namespace at `name`; a
    /// missing path leaves the tree unchanged.
    pub fn push_def_at(&mut self, name: &FullyQualifiedName, def: ComplexTypeDef)
        ensures
            final(self)@ == ns_push_def(old(self)@, name@, def@),
    {
        let mut tmp = Namespace::empty();
        core::mem::swap(self, &mut tmp);
        let mut done = tmp.pushed_def(name, 0, def);
        proof {
            assert(name@.skip(0) =~= name@);
        }
        core::mem::swap(self, &mut done);
    }
}

/// The model of an import line.
pub struct ImportV {
    pub text: Seq<char>,
}

/// One file-level import of a compilation unit.
#[derive(Debug, PartialEq)]
pub struct Import {
    pub text: String,
}

impl View for Import {
    type V = ImportV;

    open spec fn view(&self) -> ImportV {
        ImportV { text: self.text@ }
    }
}

impl Clone for Import {
    fn clone(&self) -> (r: Self)
        ensures
            r == *self,
    {
        Import { text: self.text.clone() }
    }
}

/// The model of a compilation unit.
pub struct CompilationUnitV {
    pub name: NameV,
    pub ext: Seq<char>,
    pub imports: Seq<ImportV>,
    pub namespace: NamespaceV,
    pub is_serde_file: bool,
}

/// One generated file: its name and extension, its imports, the namespace
/// tree it holds, and whether it is the serialization unit.
#[derive(Debug, PartialEq)]
pub struct CompilationUnit {
    pub name: Name,
    pub ext: String,
    pub imports: Vec<Import>,
    pub namespace: Namespace,
    pub is_serde_file: bool,
}

/// The views of a sequence of imports.
pub open spec fn imports_views(is: Seq<Import>) -> Seq<ImportV> {
    is.map_values(|i: Import| i@)
}

impl View for CompilationUnit {
    type V = CompilationUnitV;

    open spec fn view(&self) -> CompilationUnitV {
        CompilationUnitV {
            name: self.name@,
            ext: self.ext@,
            imports: imports_views(self.imports@),
            namespace: self.namespace@,
            is_serde_file: self.is_serde_file,
        }
    }
}

impl CompilationUnit {
    /// The namespace at `name` in this unit, if it exists.
    pub fn get_namespace(&self, name: &FullyQualifiedName) -> (r: Option<&Namespace>)
        ensures
            match r {
                Some(ns) => ns_get(self@.namespace, name@) == Some(ns@),
                None => ns_get(self@.namespace, name@) is None,
            },
    {
        self.namespace.get_namespace(name)
    }

    /// Makes sure the chain `name` exists in this unit's namespace tree.
    pub fn get_or_create_namespace_mut(&mut self, name: &FullyQualifiedName)
        ensures
            final(self)@.namespace == ns_ensure(old(self)@.namespace, name@),
            ns_get(final(self)@.namespace, name@).is_some(),
            final(self)@.name == old(self)@.name,
            final(self)@.ext == old(self)@.ext,
            final(self)@.imports == old(self)@.imports,
            final(self)@.is_serde_file == old(self)@.is_serde_file,
    {
        self.namespace.get_or_create_namespace_mut(name)
    }
}

/// The model of the whole generated output.
pub struct CppAstV {
    pub files: Seq<CompilationUnitV>,
}

/// The whole generated output: one compilation unit per generated file.
#[derive(Debug, PartialEq)]
pub struct CppAst {
    pub files: Vec<CompilationUnit>,
}

/// The views of a sequence of compilation units.
pub open spec fn units_views(us: Seq<CompilationUnit>) -> Seq<CompilationUnitV> {
    us.map_values(|u: CompilationUnit| u@)
}

impl View for CppAst {
    type V = CppAstV;

    open spec fn view(&self) -> CppAstV {
        CppAstV { files: units_views(self.files@) }
    }
}


/// Idempotence of casing: each casing rendering is a pure function of the
/// name's tokens and the reserved words, so rendering the same name twice
/// through the same casing function yields identical output.
pub proof fn lemma_casing_idempotent(
    tokens: Seq<Seq<char>>,
    reserved: Seq<Seq<char>>,
    first: Seq<char>,
    second: Seq<char>,
)
    requires
        (first == snake_spec(tokens, reserved) && second == snake_spec(tokens, reserved)) || (first
            == screaming_spec(tokens, reserved) && second == screaming_spec(tokens, reserved)) || (
        first == upper_camel_spec(tokens, reserved) && second == upper_camel_spec(tokens, reserved))
            || (first == lower_camel_spec(tokens, reserved) && second == lower_camel_spec(
            tokens,
            reserved,
        )) || (first == fixed_spec(tokens) && second == fixed_spec(tokens)),
    ensures
        first == second,
{
}

} // verus!
