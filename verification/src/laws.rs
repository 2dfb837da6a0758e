//! What holds of parsing, printing and incrementing taken together.
use vstd::prelude::*;

use crate::component::Component;
use crate::error::{ParseError, VersionParseError};
use crate::parse::{
    is_separator, spec_component, spec_dot, spec_semver, spec_semver_exact, spec_suffix,
    spec_version, valid_suffix,
};
use crate::text::{
    all_digits, decimal_text, decimal_value, digit_char, digit_value, is_digit, is_whitespace, leading_digits, lemma_decimal_text,
    lemma_leading_digits, lemma_leading_digits_run, lemma_text_of_value,
};
use crate::types::semver::{
    precedes, semver_text, successor_model, suffixed_text, SemVer, SemVerModel, SuffixedModel,
};
use crate::types::version::{version_text, Version, VersionModel};

verus! {

/// A version text that parsing gives back unchanged: a suffix, when there is
/// one, has a one-character separator `-` or `+` and is itself well-formed.
pub open spec fn well_formed(v: VersionModel) -> bool {
    match v {
        VersionModel::SemVer(_) => true,
        VersionModel::Suffixed(s) => {
            &&& s.separator.len() == 1
            &&& is_separator(s.separator[0])
            &&& valid_suffix(s.suffix)
        },
    }
}

/// The numeral of `n` followed by text that does not start with a digit reads
/// back as `n` and that text.
proof fn lemma_component_of_text(n: nat, rest: Seq<char>, max: nat)
    requires
        n <= max,
        rest.len() == 0 || !is_digit(rest[0]),
    ensures
        spec_component(decimal_text(n) + rest, max) == Ok::<(nat, Seq<char>), ParseError>((n, rest)),
{
    let t = decimal_text(n);
    let s = t + rest;
    lemma_decimal_text(n);
    assert(s[0] == t[0]);
    assert(is_digit(t[0]));
    if n == 0 {
        assert(s.skip(1) =~= rest);
        if s.len() > 1 {
            assert(s[1] == rest[0]);
        }
    } else {
        assert forall|j: int| 0 <= j < t.len() implies #[trigger] is_digit(s[j]) by {
            assert(s[j] == t[j]);
        }
        if t.len() < s.len() {
            assert(s[t.len() as int] == rest[0]);
        }
        lemma_leading_digits(s, t.len() as int);
        assert(s.take(t.len() as int) =~= t);
        assert(s.skip(t.len() as int) =~= rest);
    }
}

/// A component that reads successfully is the shortest numeral of its number,
/// followed by the rest of the text.
proof fn lemma_text_of_component(s: Seq<char>, max: nat)
    ensures
        spec_component(s, max) matches Ok((v, rest)) ==> {
            &&& s == decimal_text(v) + rest
            &&& v <= max
            &&& (rest.len() == 0 || !is_digit(rest[0]))
        },
{
    if let Ok((v, rest)) = spec_component(s, max) {
        if s[0] == '0' {
            assert(decimal_text(0) =~= seq!['0']);
            assert(s =~= decimal_text(v) + rest);
            if rest.len() > 0 {
                assert(rest[0] == s[1]);
            }
        } else {
            let n = leading_digits(s) as int;
            lemma_leading_digits_run(s);
            let d = s.take(n);
            assert(all_digits(d)) by {
                assert forall|i: int| 0 <= i < d.len() implies #[trigger] is_digit(d[i]) by {
                    assert(d[i] == s[i]);
                }
            }
            assert(n >= 1);
            assert(d[0] == s[0]);
            lemma_text_of_value(d);
            assert(s =~= d + s.skip(n));
            if rest.len() > 0 {
                assert(rest[0] == s[n]);
            }
        }
    }
}

/// `MAJOR.MINOR.PATCH` printed and followed by text that does not start with a
/// digit reads back as the same numbers and that text.
proof fn lemma_semver_of_text(v: SemVerModel, rest: Seq<char>, max: nat)
    requires
        v.major <= max,
        v.minor <= max,
        v.patch <= max,
        rest.len() == 0 || !is_digit(rest[0]),
    ensures
        spec_semver(semver_text(v) + rest, max) == Ok::<(SemVerModel, Seq<char>), ParseError>((v, rest)),
{
    let dot = seq!['.'];
    let tp = decimal_text(v.patch) + rest;
    let t3 = dot + tp;
    let t2 = decimal_text(v.minor) + t3;
    let t1 = dot + t2;
    assert(semver_text(v) + rest =~= decimal_text(v.major) + t1);
    assert(!is_digit('.'));
    lemma_component_of_text(v.major, t1, max);
    assert(t1.skip(1) =~= t2);
    lemma_component_of_text(v.minor, t3, max);
    assert(t3.skip(1) =~= tp);
    lemma_component_of_text(v.patch, rest, max);
}

/// A version that reads successfully is its own printed text followed by the
/// rest of the input.
proof fn lemma_text_of_semver(s: Seq<char>, max: nat)
    ensures
        spec_semver(s, max) matches Ok((v, rest)) ==> {
            &&& s == semver_text(v) + rest
            &&& v.major <= max && v.minor <= max && v.patch <= max
            &&& (rest.len() == 0 || !is_digit(rest[0]))
        },
{
    if let Ok((v, rest)) = spec_semver(s, max) {
        lemma_text_of_component(s, max);
        let (_, r1) = spec_component(s, max).unwrap();
        let r2 = spec_dot(r1).unwrap();
        lemma_text_of_component(r2, max);
        let (_, r3) = spec_component(r2, max).unwrap();
        let r4 = spec_dot(r3).unwrap();
        lemma_text_of_component(r4, max);
        assert(r1 =~= seq!['.'] + r2);
        assert(r3 =~= seq!['.'] + r4);
        assert(s =~= semver_text(v) + rest);
    }
}

/// Printing a version and parsing the text gives the same version back.
pub proof fn law_semver_roundtrip<T: Component>(v: SemVer<T>)
    ensures
        spec_semver_exact(semver_text(v@), T::max_nat()) == Ok::<SemVerModel, ParseError>(v@),
{
    v.lemma_fits();
    lemma_semver_of_text(v@, Seq::<char>::empty(), T::max_nat());
    assert(semver_text(v@) + Seq::<char>::empty() =~= semver_text(v@));
}

/// A text that parses as a plain version is exactly the printed text of that
/// version: parsing accepts only the shortest numerals, with no leading zeros.
pub proof fn law_semver_canonical(s: Seq<char>, max: nat)
    ensures
        spec_semver_exact(s, max) matches Ok(v) ==> semver_text(v) == s && v.major <= max
            && v.minor <= max && v.patch <= max,
{
    lemma_text_of_semver(s, max);
    if let Ok(v) = spec_semver_exact(s, max) {
        let (_, rest) = spec_semver(s, max).unwrap();
        assert(semver_text(v) + rest =~= semver_text(v));
    }
}

/// Printing a well-formed version, plain or suffixed, and parsing the text
/// gives the same version back.
pub proof fn law_version_roundtrip<T: Component>(v: Version<T>)
    requires
        well_formed(v@),
    ensures
        spec_version(version_text(v@), T::max_nat()) == Ok::<VersionModel, VersionParseError>(v@),
{
    match v {
        Version::SemVer(x) => {
            x.lemma_fits();
            lemma_semver_of_text(x@, Seq::<char>::empty(), T::max_nat());
            assert(semver_text(x@) + Seq::<char>::empty() =~= semver_text(x@));
        },
        Version::Suffixed(x) => {
            let m = x@;
            x.lemma_fits();
            let rest = m.separator + m.suffix;
            assert(rest[0] == m.separator[0]);
            assert(!is_digit(rest[0]));
            lemma_semver_of_text(m.version, rest, T::max_nat());
            assert(version_text(v@) =~= semver_text(m.version) + rest);
            assert(rest.take(1) =~= m.separator);
            assert(rest.skip(1) =~= m.suffix);
        },
    }
}

/// A text that parses as a version is exactly the printed text of that version,
/// and the version is well-formed.
pub proof fn law_version_canonical(s: Seq<char>, max: nat)
    ensures
        spec_version(s, max) matches Ok(v) ==> version_text(v) == s && well_formed(v),
{
    lemma_text_of_semver(s, max);
    if let Ok(v) = spec_version(s, max) {
        let (m, rest) = spec_semver(s, max).unwrap();
        if rest.len() == 0 {
            assert(semver_text(m) + rest =~= semver_text(m));
        } else {
            let (sep, suf) = spec_suffix(rest).unwrap();
            assert(rest =~= sep + suf);
            assert(s =~= semver_text(m) + sep + suf);
        }
    }
}

/// Reading a text as a version agrees with reading it as a plain version: a
/// plain version reads the same both ways, a suffixed one is trailing input to
/// the plain reading, and a malformed `MAJOR.MINOR.PATCH` fails both ways with
/// the same error.
pub proof fn law_version_agrees_with_semver(s: Seq<char>, max: nat)
    ensures
        spec_semver_exact(s, max) matches Ok(v) ==> spec_version(s, max) == Ok::<VersionModel, VersionParseError>(VersionModel::SemVer(v)),
        spec_version(s, max) matches Ok(VersionModel::SemVer(v)) ==> spec_semver_exact(s, max) == Ok::<SemVerModel, ParseError>(v),
        spec_version(s, max) matches Ok(VersionModel::Suffixed(v)) ==> spec_semver_exact(s, max) == Err::<SemVerModel, ParseError>(ParseError::TrailingInput),
        spec_semver(s, max) matches Err(e) ==> spec_semver_exact(s, max) == Err::<SemVerModel, ParseError>(e)
            && spec_version(s, max) == Err::<VersionModel, VersionParseError>(VersionParseError::SemVer(e)),
{
}

/// The next version comes after the version it follows.
pub proof fn law_successor_increases(v: SemVerModel)
    ensures
        precedes(v, successor_model(v)),
{
}

/// The next version counts up by exactly one in one place: below 9 the patch
/// number goes up by one; otherwise, below 9 the minor number goes up by one and
/// the patch number restarts at 0; otherwise the major number goes up by one and
/// both others restart at 0.
pub proof fn law_successor_steps(v: SemVerModel)
    ensures
        v.patch < 9 ==> successor_model(v).major == v.major && successor_model(v).minor
            == v.minor && successor_model(v).patch == v.patch + 1,
        v.patch >= 9 && v.minor < 9 ==> successor_model(v).major == v.major
            && successor_model(v).minor == v.minor + 1 && successor_model(v).patch == 0,
        v.patch >= 9 && v.minor >= 9 ==> successor_model(v).major == v.major + 1
            && successor_model(v).minor == 0 && successor_model(v).patch == 0,
{
}

/// Numerals are read left to right, most significant digit first: one more
/// digit at the end multiplies by ten and adds that digit. The numeral of `n`
/// ends in the digit of `n % 10` and reads back as `n`.
pub proof fn law_decimal_numerals(n: nat, s: Seq<char>, c: char)
    requires
        is_digit(c),
    ensures
        decimal_value(s + seq![c]) == decimal_value(s) * 10 + digit_value(c),
        decimal_value(seq![c]) == digit_value(c),
        digit_value(c) < 10,
        (digit_char(n % 10) as u32) == 48 + n % 10,
        decimal_text(n).last() == digit_char(n % 10),
        decimal_value(decimal_text(n)) == n,
{
    assert((s + seq![c]).drop_last() =~= s);
    assert(seq![c].drop_last() =~= Seq::<char>::empty());
    assert(decimal_value(Seq::<char>::empty()) == 0);
    lemma_decimal_text(n);
}

/// The printed text of a version is its major, minor and patch numbers, in this
/// order, each as its shortest decimal numeral, with a `.` between them.
pub proof fn law_semver_text(v: SemVerModel)
    ensures
        semver_text(v) == decimal_text(v.major) + seq!['.'] + decimal_text(v.minor) + seq!['.']
            + decimal_text(v.patch),
        version_text(VersionModel::SemVer(v)) == decimal_text(v.major) + seq!['.']
            + decimal_text(v.minor) + seq!['.'] + decimal_text(v.patch),
{
}

/// The printed text of a suffixed version is its numbers in order, then its
/// separator exactly as stored, then its suffix.
pub proof fn law_suffixed_text(v: SuffixedModel)
    ensures
        suffixed_text(v) == decimal_text(v.version.major) + seq!['.'] + decimal_text(
            v.version.minor,
        ) + seq!['.'] + decimal_text(v.version.patch) + v.separator + v.suffix,
        version_text(VersionModel::Suffixed(v)) == decimal_text(v.version.major) + seq!['.']
            + decimal_text(v.version.minor) + seq!['.'] + decimal_text(v.version.patch)
            + v.separator + v.suffix,
{
}

/// Three numerals separated by `.`, followed by text that does not start with
/// a digit, read as major, minor and patch numbers in this order, with that
/// text left over; with nothing after them they read as that plain version.
pub proof fn law_semver_reads_numbers(a: nat, b: nat, c: nat, rest: Seq<char>, max: nat)
    requires
        a <= max,
        b <= max,
        c <= max,
        rest.len() == 0 || !is_digit(rest[0]),
    ensures
        spec_semver(
            decimal_text(a) + seq!['.'] + decimal_text(b) + seq!['.'] + decimal_text(c) + rest,
            max,
        ) == Ok::<(SemVerModel, Seq<char>), ParseError>(
            (SemVerModel { major: a, minor: b, patch: c }, rest),
        ),
        spec_semver_exact(
            decimal_text(a) + seq!['.'] + decimal_text(b) + seq!['.'] + decimal_text(c),
            max,
        ) == Ok::<SemVerModel, ParseError>(SemVerModel { major: a, minor: b, patch: c }),
        spec_version(
            decimal_text(a) + seq!['.'] + decimal_text(b) + seq!['.'] + decimal_text(c),
            max,
        ) == Ok::<VersionModel, VersionParseError>(
            VersionModel::SemVer(SemVerModel { major: a, minor: b, patch: c }),
        ),
{
    let dot = seq!['.'];
    let tp = decimal_text(c) + rest;
    let t3 = dot + tp;
    let t2 = decimal_text(b) + t3;
    let t1 = dot + t2;
    assert(decimal_text(a) + dot + decimal_text(b) + dot + decimal_text(c) + rest
        =~= decimal_text(a) + t1);
    assert(!is_digit('.'));
    lemma_component_of_text(a, t1, max);
    assert(t1.skip(1) =~= t2);
    lemma_component_of_text(b, t3, max);
    assert(t3.skip(1) =~= tp);
    lemma_component_of_text(c, rest, max);
    let e = Seq::<char>::empty();
    let whole = decimal_text(a) + dot + decimal_text(b) + dot + decimal_text(c);
    assert(whole + e =~= whole);
    let (pa, pb, pc) = (decimal_text(a), decimal_text(b), decimal_text(c));
    let ep = pc + e;
    let e3 = dot + ep;
    let e2 = pb + e3;
    let e1 = dot + e2;
    assert(whole =~= pa + e1);
    lemma_component_of_text(a, e1, max);
    assert(e1.skip(1) =~= e2);
    lemma_component_of_text(b, e3, max);
    assert(e3.skip(1) =~= ep);
    lemma_component_of_text(c, e, max);
    assert(ep =~= pc);
}

/// A separator and suffix read as the separator character exactly as found and
/// the rest of the text as the suffix. They are accepted exactly when the
/// separator is `-` or `+`, the suffix is not empty, holds no white space, and
/// does not start with `-` or `+` (later `-` and `+` are allowed). Text that
/// starts with another character is `InvalidFormat`; any other failure is
/// `InvalidSuffix`.
pub proof fn law_suffix_reading(s: Seq<char>)
    ensures
        spec_suffix(s) is Ok <==> (s.len() >= 2 && (s[0] == '-' || s[0] == '+') && (forall|i: int|
            1 <= i < s.len() ==> !#[trigger] is_whitespace(s[i])) && s[1] != '-' && s[1] != '+'),
        spec_suffix(s) matches Ok((sep, suf)) ==> sep == seq![s[0]] && suf == s.skip(1),
        s.len() > 0 && s[0] != '-' && s[0] != '+' ==> spec_suffix(s) == Err::<
            (Seq<char>, Seq<char>),
            VersionParseError,
        >(VersionParseError::InvalidFormat),
        (s.len() == 0 || s[0] == '-' || s[0] == '+') && spec_suffix(s) is Err ==> spec_suffix(s)
            == Err::<(Seq<char>, Seq<char>), VersionParseError>(VersionParseError::InvalidSuffix),
{
    if s.len() >= 2 {
        let t = s.skip(1);
        assert(t[0] == s[1]);
        if (forall|i: int| 1 <= i < s.len() ==> !#[trigger] is_whitespace(s[i])) {
            assert forall|j: int| 0 <= j < t.len() implies !#[trigger] is_whitespace(t[j]) by {
                assert(t[j] == s[j + 1]);
            }
        } else {
            let i = choose|i: int| 1 <= i < s.len() && #[trigger] is_whitespace(s[i]);
            assert(t[i - 1] == s[i]);
            assert(is_whitespace(t[i - 1]));
        }
        assert(s.take(1) =~= seq![s[0]]);
    }
}

/// After the numbers of a version, the rest of the text is read as a separator
/// and a suffix: the version is suffixed, with the numbers as read, the
/// separator character exactly as found, and the remaining text as the suffix,
/// and it is accepted exactly when that separator and suffix are.
pub proof fn law_version_suffix(s: Seq<char>, max: nat)
    ensures
        spec_semver(s, max) is Ok && spec_semver(s, max)->Ok_0.1.len() > 0 ==> ({
            let (v, rest) = spec_semver(s, max)->Ok_0;
            &&& (spec_version(s, max) is Ok <==> (rest.len() >= 2 && (rest[0] == '-' || rest[0]
                == '+') && (forall|i: int| 1 <= i < rest.len() ==> !#[trigger] is_whitespace(rest[i]))
                && rest[1] != '-' && rest[1] != '+'))
            &&& (spec_version(s, max) is Ok ==> spec_version(s, max) == Ok::<
                VersionModel,
                VersionParseError,
            >(
                VersionModel::Suffixed(
                    SuffixedModel { version: v, separator: seq![rest[0]], suffix: rest.skip(1) },
                ),
            ))
        }),
{
    if let Ok((v, rest)) = spec_semver(s, max) {
        law_suffix_reading(rest);
    }
}

} // verus!
