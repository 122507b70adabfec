//! Extension identifiers: the `author.name@version` token grammar, its
//! parser, and the derivation of download URLs and filenames.

use vstd::prelude::*;
use vstd::string::StrSliceExecFns;
use vstd::string::StringExecFns;

verus! {

/// Characters allowed in the author and name segments of a token: word
/// characters (letters, digits, underscore) and hyphens.
pub open spec fn is_ident_char(c: char) -> bool {
    ('a' <= c && c <= 'z') || ('A' <= c && c <= 'Z') || ('0' <= c && c <= '9') || c == '_'
        || c == '-'
}

/// Characters allowed in a version number segment.
pub open spec fn is_digit_char(c: char) -> bool {
    '0' <= c && c <= '9'
}

/// A valid author or name segment: non-empty, identifier characters only.
pub open spec fn valid_segment(s: Seq<char>) -> bool {
    s.len() > 0 && forall|i: int| 0 <= i < s.len() ==> is_ident_char(#[trigger] s[i])
}

/// A non-empty run of decimal digits.
pub open spec fn valid_number(s: Seq<char>) -> bool {
    s.len() > 0 && forall|i: int| 0 <= i < s.len() ==> is_digit_char(#[trigger] s[i])
}

/// A three-part dotted numeric version, such as `1.2.3`.
pub open spec fn valid_version(s: Seq<char>) -> bool {
    exists|t: (Seq<char>, Seq<char>, Seq<char>)|
        {
            &&& valid_number(t.0)
            &&& valid_number(t.1)
            &&& valid_number(t.2)
            &&& s == t.0 + seq!['.'] + t.1 + seq!['.'] + t.2
        }
}

/// The token `author.name@version` built from three segments.
pub open spec fn token_of(author: Seq<char>, name: Seq<char>, version: Seq<char>) -> Seq<char> {
    author + seq!['.'] + name + seq!['@'] + version
}

/// `s` decomposes into the given author, name and version segments.
pub open spec fn token_matches(
    s: Seq<char>,
    author: Seq<char>,
    name: Seq<char>,
    version: Seq<char>,
) -> bool {
    &&& valid_segment(author)
    &&& valid_segment(name)
    &&& valid_version(version)
    &&& s == token_of(author, name, version)
}

/// The whole token matches the identifier grammar.
pub open spec fn matches_grammar(s: Seq<char>) -> bool {
    exists|t: (Seq<char>, Seq<char>, Seq<char>)| token_matches(s, t.0, t.1, t.2)
}

/// The segments of a token that matches the grammar; they are unique by
/// `lemma_fields_unique`.
pub open spec fn spec_fields(s: Seq<char>) -> (Seq<char>, Seq<char>, Seq<char>) {
    choose|t: (Seq<char>, Seq<char>, Seq<char>)| token_matches(s, t.0, t.1, t.2)
}

/// Where a matching version string keeps its dots and its digits.
proof fn lemma_version_positions(w: Seq<char>, a: Seq<char>, b: Seq<char>, c: Seq<char>)
    requires
        valid_number(a),
        valid_number(b),
        valid_number(c),
        w == a + seq!['.'] + b + seq!['.'] + c,
    ensures
        w.len() == a.len() + b.len() + c.len() + 2,
        forall|k: int|
            0 <= k < w.len() ==> ((#[trigger] w[k]) == '.' <==> (k == a.len() || k == a.len()
                + b.len() + 1)),
        forall|k: int| 0 <= k < w.len() && w[k] != '.' ==> is_digit_char(#[trigger] w[k]),
        w.subrange(0, a.len() as int) == a,
        w.subrange(a.len() as int + 1, a.len() + b.len() + 1 as int) == b,
        w.subrange(a.len() + b.len() + 2 as int, w.len() as int) == c,
{
    let p = a.len() as int;
    let q: int = (a.len() + b.len() + 1) as int;
    assert forall|k: int| 0 <= k < w.len() implies ((#[trigger] w[k]) == '.' <==> (k == p || k
        == q)) by {
        if k < p {
            assert(w[k] == a[k]);
        } else if k == p {
            assert(w[k] == '.');
        } else if k < q {
            assert(w[k] == b[k - p - 1]);
        } else if k == q {
            assert(w[k] == '.');
        } else {
            assert(w[k] == c[k - q - 1]);
        }
    }
    assert forall|k: int| 0 <= k < w.len() && w[k] != '.' implies is_digit_char(
        #[trigger] w[k],
    ) by {
        if k < p {
            assert(w[k] == a[k]);
        } else if p < k < q {
            assert(w[k] == b[k - p - 1]);
        } else if q < k {
            assert(w[k] == c[k - q - 1]);
        }
    }
    assert(w.subrange(0, p) =~= a);
    assert(w.subrange(p + 1, q) =~= b);
    assert(w.subrange(q + 1, w.len() as int) =~= c);
}

/// Where a matching token keeps its separators and what its three segments
/// are: the `.` between author and name is the first dot, the `@` is the
/// only one, and the segments are the corresponding subranges.
proof fn lemma_token_positions(s: Seq<char>, a: Seq<char>, n: Seq<char>, v: Seq<char>)
    requires
        token_matches(s, a, n, v),
    ensures
        s.len() == a.len() + n.len() + v.len() + 2,
        forall|k: int|
            0 <= k < s.len() ==> ((#[trigger] s[k]) == '@' <==> k == a.len() + n.len() + 1),
        forall|k: int|
            0 <= k < a.len() + n.len() + 1 ==> ((#[trigger] s[k]) == '.' <==> k == a.len()),
        forall|k: int| 0 <= k < a.len() ==> is_ident_char(#[trigger] s[k]),
        forall|k: int| a.len() < k < a.len() + n.len() + 1 ==> is_ident_char(#[trigger] s[k]),
        s.subrange(0, a.len() as int) == a,
        s.subrange(a.len() as int + 1, a.len() + n.len() + 1 as int) == n,
        s.subrange(a.len() + n.len() + 2 as int, s.len() as int) == v,
{
    let p = a.len() as int;
    let q: int = (a.len() + n.len() + 1) as int;
    let t = choose|t: (Seq<char>, Seq<char>, Seq<char>)|
        {
            &&& valid_number(t.0)
            &&& valid_number(t.1)
            &&& valid_number(t.2)
            &&& v == t.0 + seq!['.'] + t.1 + seq!['.'] + t.2
        };
    lemma_version_positions(v, t.0, t.1, t.2);
    assert forall|k: int| 0 <= k < s.len() implies ((#[trigger] s[k]) == '@' <==> k == q) by {
        if k < p {
            assert(s[k] == a[k]);
        } else if k == p {
            assert(s[k] == '.');
        } else if k < q {
            assert(s[k] == n[k - p - 1]);
        } else if k == q {
            assert(s[k] == '@');
        } else {
            assert(s[k] == v[k - q - 1]);
            if v[k - q - 1] != '.' {
                assert(is_digit_char(v[k - q - 1]));
            }
        }
    }
    assert forall|k: int| 0 <= k < q implies ((#[trigger] s[k]) == '.' <==> k == p) by {
        if k < p {
            assert(s[k] == a[k]);
        } else if k == p {
            assert(s[k] == '.');
        } else {
            assert(s[k] == n[k - p - 1]);
        }
    }
    assert forall|k: int| 0 <= k < p implies is_ident_char(#[trigger] s[k]) by {
        assert(s[k] == a[k]);
    }
    assert forall|k: int| p < k < q implies is_ident_char(#[trigger] s[k]) by {
        assert(s[k] == n[k - p - 1]);
    }
    assert(s.subrange(0, p) =~= a);
    assert(s.subrange(p + 1, q) =~= n);
    assert(s.subrange(q + 1, s.len() as int) =~= v);
}

/// Law: a token determines its author, name and version segments uniquely.
pub proof fn lemma_fields_unique(
    s: Seq<char>,
    a1: Seq<char>,
    n1: Seq<char>,
    v1: Seq<char>,
    a2: Seq<char>,
    n2: Seq<char>,
    v2: Seq<char>,
)
    requires
        token_matches(s, a1, n1, v1),
        token_matches(s, a2, n2, v2),
    ensures
        a1 == a2,
        n1 == n2,
        v1 == v2,
{
    lemma_token_positions(s, a1, n1, v1);
    lemma_token_positions(s, a2, n2, v2);
    assert(s[a1.len() as int] == '.');
    assert(s[a2.len() as int] == '.');
    assert(s[a1.len() + n1.len() + 1 as int] == '@');
    assert(s[a2.len() + n2.len() + 1 as int] == '@');
    assert(a1.len() == a2.len());
    assert(n1.len() == n2.len());
    assert(a1 == a2);
    assert(n1 == n2);
    assert(v1 == v2);
}

/// Law: a token rebuilt from valid segments matches the grammar and parses
/// back to exactly those segments (the round trip of structured fields).
pub proof fn lemma_parse_round_trip(a: Seq<char>, n: Seq<char>, v: Seq<char>)
    requires
        valid_segment(a),
        valid_segment(n),
        valid_version(v),
    ensures
        matches_grammar(token_of(a, n, v)),
        spec_fields(token_of(a, n, v)) == (a, n, v),
{
    let s = token_of(a, n, v);
    assert(token_matches(s, a, n, v));
    let t = (a, n, v);
    assert(token_matches(s, t.0, t.1, t.2));
    let u = spec_fields(s);
    assert(token_matches(s, u.0, u.1, u.2));
    lemma_fields_unique(s, u.0, u.1, u.2, a, n, v);
}

/// A structured extension identifier: the parsed form of a token.
#[derive(Debug)]
pub struct ExtensionInfo {
    /// The publisher of the extension.
    pub author: String,
    /// The extension's name.
    pub name: String,
    /// The three-part dotted version, such as `1.2.3`.
    pub version: String,
}

impl View for ExtensionInfo {
    type V = (Seq<char>, Seq<char>, Seq<char>);

    open spec fn view(&self) -> Self::V {
        (self.author@, self.name@, self.version@)
    }
}

/// A token that does not match the identifier grammar, carrying the
/// offending token.
#[derive(Debug)]
pub struct ParseError {
    /// The token that failed to parse.
    pub token: String,
}

/// The first occurrence of `c` in `s@` within `[from, to)`, if any.
fn find_from(s: &str, c: char, from: usize, to: usize) -> (r: Option<usize>)
    requires
        from <= to <= s@.len(),
    ensures
        match r {
            Some(i) => from <= i < to && s@[i as int] == c && forall|k: int|
                from <= k < i ==> s@[k] != c,
            None => forall|k: int| from <= k < to ==> s@[k] != c,
        },
{
    let mut i = from;
    while i < to
        invariant
            from <= i <= to <= s@.len(),
            forall|k: int| from <= k < i ==> s@[k] != c,
        decreases to - i,
    {
        if s.get_char(i) == c {
            return Some(i);
        }
        i += 1;
    }
    None
}

/// Whether every character of `s@` in `[from, to)` is an identifier
/// character.
fn all_ident_range(s: &str, from: usize, to: usize) -> (r: bool)
    requires
        from <= to <= s@.len(),
    ensures
        r == forall|k: int| from <= k < to ==> is_ident_char(#[trigger] s@[k]),
{
    let mut i = from;
    while i < to
        invariant
            from <= i <= to <= s@.len(),
            forall|k: int| from <= k < i ==> is_ident_char(#[trigger] s@[k]),
        decreases to - i,
    {
        let c = s.get_char(i);
        let ok = ('a' <= c && c <= 'z') || ('A' <= c && c <= 'Z') || ('0' <= c && c <= '9') || c
            == '_' || c == '-';
        if !ok {
            return false;
        }
        i += 1;
    }
    true
}

/// Whether every character of `s@` in `[from, to)` is a decimal digit.
fn all_digit_range(s: &str, from: usize, to: usize) -> (r: bool)
    requires
        from <= to <= s@.len(),
    ensures
        r == forall|k: int| from <= k < to ==> is_digit_char(#[trigger] s@[k]),
{
    let mut i = from;
    while i < to
        invariant
            from <= i <= to <= s@.len(),
            forall|k: int| from <= k < i ==> is_digit_char(#[trigger] s@[k]),
        decreases to - i,
    {
        let c = s.get_char(i);
        if !('0' <= c && c <= '9') {
            return false;
        }
        i += 1;
    }
    true
}

/// The dots of a version written at offsets of the surrounding token: dots
/// exactly at `p1` and `p2`, digits everywhere else in `[lo, hi)`.
spec fn version_shape(s: Seq<char>, lo: int, hi: int, p1: int, p2: int) -> bool {
    &&& lo < p1 && p1 + 1 < p2 && p2 + 1 < hi
    &&& s[p1] == '.'
    &&& s[p2] == '.'
    &&& forall|k: int| lo <= k < hi && k != p1 && k != p2 ==> is_digit_char(#[trigger] s[k])
}

/// A valid version inside `s[lo..hi]` pins two dot positions with digit
/// runs between them.
proof fn lemma_version_shape(s: Seq<char>, lo: int, hi: int)
    requires
        0 <= lo <= hi <= s.len(),
        valid_version(s.subrange(lo, hi)),
    ensures
        exists|pp: (int, int)| version_shape(s, lo, hi, pp.0, pp.1),
{
    let w = s.subrange(lo, hi);
    let t = choose|t: (Seq<char>, Seq<char>, Seq<char>)|
        {
            &&& valid_number(t.0)
            &&& valid_number(t.1)
            &&& valid_number(t.2)
            &&& w == t.0 + seq!['.'] + t.1 + seq!['.'] + t.2
        };
    lemma_version_positions(w, t.0, t.1, t.2);
    let pp = (lo + t.0.len(), lo + t.0.len() + t.1.len() + 1);
    assert(version_shape(s, lo, hi, pp.0, pp.1)) by {
        assert forall|k: int| lo <= k < hi && k != pp.0 && k != pp.1 implies is_digit_char(
            #[trigger] s[k],
        ) by {
            assert(s[k] == w[k - lo]);
            assert(w[k - lo] != '.');
        }
        assert(s[pp.0] == w[pp.0 - lo]);
        assert(s[pp.1] == w[pp.1 - lo]);
    }
}

/// Whether `s@[lo..hi]` is a three-part dotted numeric version.
fn version_ok(s: &str, lo: usize, hi: usize) -> (r: bool)
    requires
        lo <= hi <= s@.len(),
    ensures
        r == valid_version(s@.subrange(lo as int, hi as int)),
{
    let ghost w = s@.subrange(lo as int, hi as int);
    let d1 = match find_from(s, '.', lo, hi) {
        Some(d) => d,
        None => {
            proof {
                if valid_version(w) {
                    lemma_version_shape(s@, lo as int, hi as int);
                    let pp = choose|pp: (int, int)| version_shape(s@, lo as int, hi as int, pp.0, pp.1);
                    assert(s@[pp.0] == '.');
                }
            }
            return false;
        },
    };
    let d2 = match find_from(s, '.', d1 + 1, hi) {
        Some(d) => d,
        None => {
            proof {
                if valid_version(w) {
                    lemma_version_shape(s@, lo as int, hi as int);
                    let pp = choose|pp: (int, int)| version_shape(s@, lo as int, hi as int, pp.0, pp.1);
                    assert(d1 == pp.0);
                    assert(s@[pp.1] == '.');
                }
            }
            return false;
        },
    };
    let no_third = match find_from(s, '.', d2 + 1, hi) {
        Some(_) => false,
        None => true,
    };
    let r = no_third && lo < d1 && d1 + 1 < d2 && d2 + 1 < hi && all_digit_range(s, lo, d1)
        && all_digit_range(s, d1 + 1, d2) && all_digit_range(s, d2 + 1, hi);
    proof {
        if r {
            let a = w.subrange(0, d1 - lo);
            let b = w.subrange(d1 - lo + 1, d2 - lo);
            let c = w.subrange(d2 - lo + 1, w.len() as int);
            assert forall|k: int| 0 <= k < w.len() implies w[k] == s@[lo + k] by {}
            assert(valid_number(a));
            assert(valid_number(b));
            assert(valid_number(c));
            assert(w =~= a + seq!['.'] + b + seq!['.'] + c);
            let t = (a, b, c);
            assert({
                &&& valid_number(t.0)
                &&& valid_number(t.1)
                &&& valid_number(t.2)
                &&& w == t.0 + seq!['.'] + t.1 + seq!['.'] + t.2
            });
            assert(valid_version(w));
        } else {
            if valid_version(w) {
                lemma_version_shape(s@, lo as int, hi as int);
                let pp = choose|pp: (int, int)| version_shape(s@, lo as int, hi as int, pp.0, pp.1);
                assert(d1 == pp.0);
                assert(d2 == pp.1);
                assert(forall|k: int| d2 < k < hi ==> s@[k] != '.');
                assert(no_third);
                assert(false);
            }
        }
    }
    r
}

/// The canonical marketplace download URL for an identifier's fields.
pub open spec fn url_chars(author: Seq<char>, name: Seq<char>, version: Seq<char>) -> Seq<char> {
    "https://marketplace.visualstudio.com/_apis/public/gallery/publishers/"@ + author
        + "/vsextensions/"@ + name + "/"@ + version + "/vspackage"@
}

/// The download filename `author.name-version.vsix` for an identifier's
/// fields.
pub open spec fn filename_chars(author: Seq<char>, name: Seq<char>, version: Seq<char>) -> Seq<
    char,
> {
    author + "."@ + name + "-"@ + version + ".vsix"@
}

/// The readable rendering of an identifier.
pub open spec fn describe_chars(author: Seq<char>, name: Seq<char>, version: Seq<char>) -> Seq<
    char,
> {
    "author: "@ + author + ", name: "@ + name + ", version: "@ + version
}

impl ExtensionInfo {
    /// The three fields conform to the token grammar.
    pub open spec fn wf(&self) -> bool {
        valid_segment(self.author@) && valid_segment(self.name@) && valid_version(self.version@)
    }

    /// Parse a raw token of the form `author.name@version`. A token that
    /// does not match the grammar is rejected, and the error carries it.
    pub fn try_from(value: &str) -> (r: Result<ExtensionInfo, ParseError>)
        ensures
            match r {
                Ok(ext) => {
                    &&& token_matches(value@, ext.author@, ext.name@, ext.version@)
                    &&& ext@ == spec_fields(value@)
                    &&& ext.wf()
                    &&& matches_grammar(value@)
                },
                Err(e) => !matches_grammar(value@) && e.token@ == value@,
            },
    {
        let n = value.unicode_len();
        let dot = find_from(value, '.', 0, n);
        let at = find_from(value, '@', 0, n);
        if let (Some(i), Some(j)) = (dot, at) {
            if 0 < i && i + 1 < j && j + 1 < n && all_ident_range(value, 0, i) && all_ident_range(
                value,
                i + 1,
                j,
            ) && version_ok(value, j + 1, n) {
                let author = value.substring_char(0, i).to_owned();
                let name = value.substring_char(i + 1, j).to_owned();
                let version = value.substring_char(j + 1, n).to_owned();
                proof {
                    assert(value@ =~= value@.subrange(0, i as int) + seq!['.'] + value@.subrange(
                        i + 1,
                        j as int,
                    ) + seq!['@'] + value@.subrange(j + 1, n as int));
                    assert(valid_segment(author@));
                    assert(valid_segment(name@));
                    let t = (author@, name@, version@);
                    assert(token_matches(value@, t.0, t.1, t.2));
                    assert(matches_grammar(value@));
                    let u = spec_fields(value@);
                    assert(token_matches(value@, u.0, u.1, u.2));
                    lemma_fields_unique(value@, u.0, u.1, u.2, t.0, t.1, t.2);
                }
                return Ok(ExtensionInfo { author, name, version });
            }
            proof {
                if matches_grammar(value@) {
                    let t = choose|t: (Seq<char>, Seq<char>, Seq<char>)|
                        token_matches(value@, t.0, t.1, t.2);
                    lemma_token_positions(value@, t.0, t.1, t.2);
                    let p = t.0.len() as int;
                    let q: int = (t.0.len() + t.1.len() + 1) as int;
                    assert(value@[p] == '.');
                    assert(value@[q] == '@');
                    if i < p {
                        assert(value@[i as int] == '.');
                        assert(false);
                    }
                    if i > p {
                        assert(value@[p] != '.');
                        assert(false);
                    }
                    if j < q {
                        assert(value@[j as int] == '@');
                        assert(false);
                    }
                    if j > q {
                        assert(value@[q] != '@');
                        assert(false);
                    }
                    assert(i == p);
                    assert(j == q);
                    let tv = choose|tv: (Seq<char>, Seq<char>, Seq<char>)|
                        {
                            &&& valid_number(tv.0)
                            &&& valid_number(tv.1)
                            &&& valid_number(tv.2)
                            &&& t.2 == tv.0 + seq!['.'] + tv.1 + seq!['.'] + tv.2
                        };
                    assert(t.2.len() >= 2);
                    assert(valid_version(value@.subrange(j + 1, n as int)));
                    assert(false);
                }
            }
        } else {
            proof {
                if matches_grammar(value@) {
                    let t = choose|t: (Seq<char>, Seq<char>, Seq<char>)|
                        token_matches(value@, t.0, t.1, t.2);
                    lemma_token_positions(value@, t.0, t.1, t.2);
                    let p = t.0.len() as int;
                    let q: int = (t.0.len() + t.1.len() + 1) as int;
                    assert(value@[p] == '.');
                    assert(value@[q] == '@');
                    assert(false);
                }
            }
        }
        Err(ParseError { token: value.to_owned() })
    }

    /// The marketplace download URL for this identifier; derivation is
    /// total and never fails.
    pub fn get_url(&self) -> (r: Result<String, ParseError>)
        ensures
            r matches Ok(u) && u@ == url_chars(self.author@, self.name@, self.version@),
    {
        let mut url = String::new();
        url.append("https://marketplace.visualstudio.com/_apis/public/gallery/publishers/");
        url.append(self.author.as_str());
        url.append("/vsextensions/");
        url.append(self.name.as_str());
        url.append("/");
        url.append(self.version.as_str());
        url.append("/vspackage");
        proof {
            assert(url@ =~= url_chars(self.author@, self.name@, self.version@));
        }
        Ok(url)
    }

    /// The download filename for this identifier; derivation is total and
    /// never fails.
    pub fn get_filename(&self) -> (r: Result<String, ParseError>)
        ensures
            r matches Ok(f) && f@ == filename_chars(self.author@, self.name@, self.version@),
    {
        let mut f = String::new();
        f.append(self.author.as_str());
        f.append(".");
        f.append(self.name.as_str());
        f.append("-");
        f.append(self.version.as_str());
        f.append(".vsix");
        proof {
            assert(f@ =~= filename_chars(self.author@, self.name@, self.version@));
        }
        Ok(f)
    }

    /// Rebuild the raw token `author.name@version` from the fields.
    pub fn to_token(&self) -> (r: String)
        ensures
            r@ == token_of(self.author@, self.name@, self.version@),
    {
        let mut t = String::new();
        t.append(self.author.as_str());
        t.append(".");
        t.append(self.name.as_str());
        t.append("@");
        t.append(self.version.as_str());
        proof {
            reveal_strlit(".");
            reveal_strlit("@");
            assert("."@ =~= seq!['.']);
            assert("@"@ =~= seq!['@']);
            assert(t@ =~= token_of(self.author@, self.name@, self.version@));
        }
        t
    }

    /// A readable, single-line rendering of the identifier.
    pub fn describe(&self) -> (r: String)
        ensures
            r@ == describe_chars(self.author@, self.name@, self.version@),
    {
        let mut d = String::new();
        d.append("author: ");
        d.append(self.author.as_str());
        d.append(", name: ");
        d.append(self.name.as_str());
        d.append(", version: ");
        d.append(self.version.as_str());
        proof {
            assert(d@ =~= describe_chars(self.author@, self.name@, self.version@));
        }
        d
    }
}

impl Clone for ExtensionInfo {
    /// A field-for-field copy.
    fn clone(&self) -> (r: Self)
        ensures
            r == *self,
    {
        ExtensionInfo {
            author: self.author.clone(),
            name: self.name.clone(),
            version: self.version.clone(),
        }
    }
}

/// Law: URL and filename derivation is deterministic: identifiers with
/// equal fields resolve to equal URL and filename text.
pub proof fn lemma_resolve_deterministic(x: &ExtensionInfo, y: &ExtensionInfo)
    requires
        x@ == y@,
    ensures
        url_chars(x.author@, x.name@, x.version@) == url_chars(y.author@, y.name@, y.version@),
        filename_chars(x.author@, x.name@, x.version@) == filename_chars(
            y.author@,
            y.name@,
            y.version@,
        ),
{
    assert(x.author@ == y.author@);
    assert(x.name@ == y.name@);
    assert(x.version@ == y.version@);
}

} // verus!
