//! Aliases: names for prefixes in firewall rules.
//!
//! An alias name starts with a letter, followed by letters, digits, hyphens
//! and underscores. Names are held in lower case, which is how they have
//! always been read from the configuration.

use vstd::prelude::*;
use crate::ip_address::cidr::Cidr;
use crate::ip_address::parse::parse_cidr_spec;
use crate::text::{
    char_is_alphabetic, char_is_alphanumeric, chars_of, find_from, index_of, is_alphabetic,
    is_alphanumeric, lower, skip_space, skip_space_from, string_of, text_same, trim_end,
    trim_end_to, word_end, word_end_from,
};

verus! {

/// Why a text is no alias name.
#[derive(Clone, Copy, Debug, PartialEq, Eq, Structural)]
pub enum AliasNameError {
    /// The scope is neither `dc` nor `guest`.
    InvalidScope,
    /// The text is no name, or lacks the scope or the name.
    InvalidName,
}

/// Where an alias is defined: for the whole datacenter or for one guest.
#[derive(Debug, Clone, Copy, Eq, PartialEq, Structural)]
pub enum AliasScope {
    Datacenter,
    Guest,
}

/// What a text means as a scope.
pub open spec fn parse_scope(s: Seq<char>) -> Option<AliasScope> {
    if s == "dc"@ {
        Some(AliasScope::Datacenter)
    } else if s == "guest"@ {
        Some(AliasScope::Guest)
    } else {
        None
    }
}

impl AliasScope {
    /// The scope as text.
    pub open spec fn text(self) -> Seq<char> {
        match self {
            AliasScope::Datacenter => "dc"@,
            AliasScope::Guest => "guest"@,
        }
    }

    /// Reads a scope from its text.
    pub fn parse_text(s: &str) -> (r: Result<AliasScope, AliasNameError>)
        ensures
            match parse_scope(s@) {
                Some(scope) => r == Ok::<AliasScope, AliasNameError>(scope),
                None => r == Err::<AliasScope, AliasNameError>(AliasNameError::InvalidScope),
            },
    {
        if text_same(s, "dc") {
            Ok(AliasScope::Datacenter)
        } else if text_same(s, "guest") {
            Ok(AliasScope::Guest)
        } else {
            Err(AliasNameError::InvalidScope)
        }
    }

    /// The scope as text.
    pub fn as_str(&self) -> (r: &'static str)
        ensures
            r@ == self.text(),
    {
        match self {
            AliasScope::Datacenter => "dc",
            AliasScope::Guest => "guest",
        }
    }
}

/// A character that an alias name may hold behind its first.
pub open spec fn is_name_char(c: char) -> bool {
    is_alphanumeric(c) || c == '-' || c == '_'
}

/// `s` is an alias name: a letter, then letters, digits, hyphens and
/// underscores.
pub open spec fn is_alias_name(s: Seq<char>) -> bool {
    &&& s.len() > 0
    &&& is_alphabetic(s[0])
    &&& forall|i: int| 0 <= i < s.len() ==> is_name_char(#[trigger] s[i])
}

/// The text with its ASCII letters in lower case.
pub open spec fn lowered(s: Seq<char>) -> Seq<char> {
    Seq::new(s.len(), |i: int| lower(s[i]))
}

/// The lower-case form of an ASCII letter; any other character unchanged.
pub fn lower_char(c: char) -> (r: char)
    ensures
        r == lower(c),
{
    if c >= 'A' && c <= 'Z' {
        ((c as u8) + 32u8) as char
    } else {
        c
    }
}

/// The text with its ASCII letters in lower case.
pub fn to_lower(s: &str) -> (r: String)
    ensures
        r@ == lowered(s@),
{
    let v = chars_of(s);
    let mut out = String::new();
    let mut i: usize = 0;
    while i < v.len()
        invariant
            i <= v.len(),
            v@ == s@,
            out@ == lowered(s@).subrange(0, i as int),
        decreases v.len() - i,
    {
        out.push(lower_char(v[i]));
        i = i + 1;
        assert(out@ =~= lowered(s@).subrange(0, i as int));
    }
    assert(out@ =~= lowered(s@));
    out
}

/// Whether `s` is an alias name.
pub fn check_alias_name(s: &str) -> (r: bool)
    ensures
        r == is_alias_name(s@),
{
    let v = chars_of(s);
    if v.len() == 0 || !char_is_alphabetic(v[0]) {
        return false;
    }
    let mut i: usize = 0;
    while i < v.len()
        invariant
            i <= v.len(),
            v@ == s@,
            forall|j: int| 0 <= j < i ==> is_name_char(#[trigger] v@[j]),
        decreases v.len() - i,
    {
        let c: char = v[i];
        if !(char_is_alphanumeric(c) || c == '-' || c == '_') {
            assert(!is_name_char(s@[i as int]));
            return false;
        }
        i = i + 1;
    }
    true
}

/// An alias name without a scope, as older rules have it.
#[derive(Debug, Clone, Eq, PartialEq)]
pub struct LegacyAliasName(String);

impl View for LegacyAliasName {
    type V = Seq<char>;

    closed spec fn view(&self) -> Seq<char> {
        self.0@
    }
}

impl LegacyAliasName {
    /// Reads an alias name without a scope from its text.
    pub fn parse_text(s: &str) -> (r: Result<LegacyAliasName, AliasNameError>)
        ensures
            is_alias_name(s@) ==> r is Ok && r->Ok_0@ == lowered(s@),
            !is_alias_name(s@) ==> r == Err::<LegacyAliasName, AliasNameError>(
                AliasNameError::InvalidName,
            ),
    {
        if check_alias_name(s) {
            Ok(LegacyAliasName(to_lower(s)))
        } else {
            Err(AliasNameError::InvalidName)
        }
    }

    pub fn as_str(&self) -> (r: &str)
        ensures
            r@ == self@,
    {
        self.0.as_str()
    }
}

/// An alias name with its scope. As text the scope stands first, then a
/// slash, then the name.
#[derive(Debug, Clone, Eq, PartialEq)]
pub struct AliasName {
    scope: AliasScope,
    name: String,
}

/// The view of an alias name with its scope.
pub struct AliasNameView {
    pub scope: AliasScope,
    pub name: Seq<char>,
}

impl AliasNameView {
    /// The name as one text.
    pub open spec fn text(self) -> Seq<char> {
        self.scope.text() + seq!['/'] + self.name
    }
}

impl View for AliasName {
    type V = AliasNameView;

    closed spec fn view(&self) -> AliasNameView {
        AliasNameView { scope: self.scope, name: self.name@ }
    }
}

/// What a text means as an alias name with its scope: the part before the
/// first slash is the scope, the part behind it, which may not be empty, the
/// name, taken in lower case.
pub open spec fn parse_alias_name(s: Seq<char>) -> Result<AliasNameView, AliasNameError> {
    let at = index_of(s, '/');
    if at >= s.len() || at + 1 == s.len() {
        Err(AliasNameError::InvalidName)
    } else {
        match parse_scope(s.subrange(0, at)) {
            None => Err(AliasNameError::InvalidScope),
            Some(scope) => Ok(
                AliasNameView { scope, name: lowered(s.subrange(at + 1, s.len() as int)) },
            ),
        }
    }
}

impl AliasName {
    /// The alias of the given scope and name. The name is taken in lower
    /// case.
    pub fn new(scope: AliasScope, name: String) -> (r: AliasName)
        ensures
            r@ == (AliasNameView { scope, name: lowered(name@) }),
    {
        AliasName { scope, name: to_lower(name.as_str()) }
    }

    pub fn name(&self) -> (r: &str)
        ensures
            r@ == self@.name,
    {
        self.name.as_str()
    }

    pub fn scope(&self) -> (r: &AliasScope)
        ensures
            *r == self@.scope,
    {
        &self.scope
    }

    /// Reads an alias name with its scope from its text.
    pub fn parse_text(s: &str) -> (r: Result<AliasName, AliasNameError>)
        ensures
            match parse_alias_name(s@) {
                Ok(view) => r is Ok && r->Ok_0@ == view,
                Err(e) => r == Err::<AliasName, AliasNameError>(e),
            },
    {
        let v = chars_of(s);
        let at: usize = find_from(&v, '/', 0);
        if at >= v.len() || at + 1 == v.len() {
            return Err(AliasNameError::InvalidName);
        }
        let prefix = string_of(&v, 0, at);
        let name = string_of(&v, at + 1, v.len());
        match AliasScope::parse_text(prefix.as_str()) {
            Ok(scope) => Ok(AliasName::new(scope, name)),
            Err(e) => Err(e),
        }
    }

    /// The name as one text.
    pub fn to_text(&self) -> (r: String)
        ensures
            r@ == self@.text(),
    {
        let mut out = String::from_str(self.scope.as_str());
        out.push('/');
        out.append(self.name.as_str());
        assert(out@ =~= self@.text());
        out
    }
}

/// The name of an alias in a firewall rule: with a scope, or without one.
#[derive(Debug, Clone, Eq, PartialEq)]
pub enum RuleAliasName {
    Scoped(AliasName),
    Legacy(LegacyAliasName),
}

impl RuleAliasName {
    /// Reads the name of an alias in a rule: as a name with a scope where
    /// the text reads as one, else as a name without.
    pub fn parse_text(s: &str) -> (r: Result<RuleAliasName, AliasNameError>)
        ensures
            match parse_alias_name(s@) {
                Ok(view) => r is Ok && r->Ok_0 is Scoped && r->Ok_0->Scoped_0@ == view,
                Err(_) => if is_alias_name(s@) {
                    r is Ok && r->Ok_0 is Legacy && r->Ok_0->Legacy_0@ == lowered(s@)
                } else {
                    r == Err::<RuleAliasName, AliasNameError>(AliasNameError::InvalidName)
                },
            },
    {
        match AliasName::parse_text(s) {
            Ok(scoped) => Ok(RuleAliasName::Scoped(scoped)),
            Err(_) => match LegacyAliasName::parse_text(s) {
                Ok(legacy) => Ok(RuleAliasName::Legacy(legacy)),
                Err(e) => Err(e),
            },
        }
    }

    /// The name as one text.
    pub fn to_text(&self) -> (r: String)
        ensures
            r@ == match self {
                RuleAliasName::Scoped(a) => a@.text(),
                RuleAliasName::Legacy(l) => l@,
            },
    {
        match self {
            RuleAliasName::Scoped(a) => a.to_text(),
            RuleAliasName::Legacy(l) => String::from_str(l.as_str()),
        }
    }
}

/// An alias as the configuration holds it: a name, in lower case, the
/// prefix that it stands for, and a comment.
#[derive(Debug, PartialEq, Eq)]
pub struct Alias {
    name: String,
    address: Cidr,
    comment: Option<String>,
}

impl Alias {
    /// The name of the alias.
    pub closed spec fn name_text(&self) -> Seq<char> {
        self.name@
    }

    /// The prefix that the alias stands for.
    pub closed spec fn prefix(&self) -> Cidr {
        self.address
    }

    /// The comment of the alias.
    pub closed spec fn comment_text(&self) -> Option<Seq<char>> {
        match self.comment {
            Some(c) => Some(c@),
            None => None,
        }
    }

    /// The alias of the given name, which is taken in lower case.
    pub fn new(name: String, address: Cidr, comment: Option<String>) -> (r: Alias)
        ensures
            r.name_text() == lowered(name@),
            r.prefix() == address,
            r.comment_text() == match comment {
                Some(c) => Some(c@),
                None => None,
            },
    {
        Alias { name: to_lower(name.as_str()), address, comment }
    }

    pub fn name(&self) -> (r: &str)
        ensures
            r@ == self.name_text(),
    {
        self.name.as_str()
    }

    pub fn address(&self) -> (r: &Cidr)
        ensures
            *r == self.prefix(),
    {
        &self.address
    }

    pub fn comment(&self) -> (r: Option<&str>)
        ensures
            match r {
                Some(c) => self.comment_text() == Some(c@),
                None => self.comment_text() is None,
            },
    {
        match &self.comment {
            Some(c) => Some(c.as_str()),
            None => None,
        }
    }
}


/// Why a line is no alias.
#[derive(Clone, Copy, Debug, PartialEq, Eq, Structural)]
pub enum AliasError {
    /// The line does not start with a name.
    ExpectedName,
    /// No value stands behind the name.
    ExpectedValue,
    /// The value is no prefix.
    InvalidAddress,
    /// Something that is no comment stands behind the value.
    TrailingCharacters,
}

/// The place behind the characters of a name that start at place `i`.
pub open spec fn name_end(s: Seq<char>, i: int) -> int
    decreases s.len() - i,
{
    if 0 <= i < s.len() && is_name_char(s[i]) {
        name_end(s, i + 1)
    } else {
        i
    }
}

/// The view of an alias.
pub struct AliasView {
    pub name: Seq<char>,
    pub address: Cidr,
    pub comment: Option<Seq<char>>,
}

/// What a line means as an alias, or why it is none: a name, a prefix and,
/// behind a number sign, a comment, with white space between them. The name
/// is taken in lower case, the comment without white space around it.
pub open spec fn parse_alias_spec(s: Seq<char>) -> Result<AliasView, AliasError> {
    let a = skip_space(s, 0);
    if !(a < s.len() && is_alphabetic(s[a])) {
        Err(AliasError::ExpectedName)
    } else {
        let b = name_end(s, a);
        let c = skip_space(s, b);
        let d = word_end(s, c);
        if d == c {
            Err(AliasError::ExpectedValue)
        } else {
            match parse_cidr_spec(s.subrange(c, d)) {
                None => Err(AliasError::InvalidAddress),
                Some(address) => {
                    let e = skip_space(s, d);
                    let name = lowered(s.subrange(a, b));
                    if e < s.len() && s[e] == '#' {
                        let from = skip_space(s, e + 1);
                        let to = trim_end(s, from, s.len() as int);
                        Ok(AliasView { name, address, comment: Some(s.subrange(from, to)) })
                    } else if e < s.len() {
                        Err(AliasError::TrailingCharacters)
                    } else {
                        Ok(AliasView { name, address, comment: None })
                    }
                },
            }
        }
    }
}

impl Alias {
    /// The view of the alias.
    pub closed spec fn alias_view(&self) -> AliasView {
        AliasView {
            name: self.name@,
            address: self.address,
            comment: match self.comment {
                Some(c) => Some(c@),
                None => None,
            },
        }
    }

    /// Reads an alias from a line of the configuration.
    pub fn parse_text(s: &str) -> (r: Result<Alias, AliasError>)
        ensures
            match parse_alias_spec(s@) {
                Ok(view) => r is Ok && r->Ok_0.alias_view() == view,
                Err(e) => r == Err::<Alias, AliasError>(e),
            },
    {
        let v = chars_of(s);
        let a: usize = skip_space_from(&v, 0);
        if !(a < v.len() && char_is_alphabetic(v[a])) {
            return Err(AliasError::ExpectedName);
        }
        let mut b: usize = a;
        while b < v.len() && (char_is_alphanumeric(v[b]) || v[b] == '-' || v[b] == '_')
            invariant
                a <= b <= v.len(),
                name_end(v@, b as int) == name_end(v@, a as int),
            decreases v.len() - b,
        {
            b = b + 1;
        }
        let c: usize = skip_space_from(&v, b);
        let d: usize = word_end_from(&v, c);
        if d == c {
            return Err(AliasError::ExpectedValue);
        }
        let address = match Cidr::parse_text(string_of(&v, c, d).as_str()) {
            Some(x) => x,
            None => {
                return Err(AliasError::InvalidAddress);
            },
        };
        let e: usize = skip_space_from(&v, d);
        let name = to_lower(string_of(&v, a, b).as_str());
        if e < v.len() && v[e] == '#' {
            let from: usize = skip_space_from(&v, e + 1);
            let to: usize = trim_end_to(&v, from, v.len());
            Ok(Alias { name, address, comment: Some(string_of(&v, from, to)) })
        } else if e < v.len() {
            Err(AliasError::TrailingCharacters)
        } else {
            Ok(Alias { name, address, comment: None })
        }
    }
}

} // verus!
