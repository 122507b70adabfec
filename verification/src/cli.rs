//! The command-line surface: options, the line format of the host
//! listing, and the collection of identifiers out of raw token lines.

use vstd::prelude::*;
use vstd::string::StrSliceExecFns;
use crate::extension::ExtensionInfo;
use crate::extension::matches_grammar;
use crate::extension::spec_fields;

verus! {

/// The command-line options: a list file of tokens to download, the
/// directory the downloads go to, and a mode that only saves the host
/// listing to a file.
pub struct Opts {
    /// Download the extensions named in this list file.
    pub file: Option<String>,
    /// The directory where downloaded extensions are placed.
    pub dir: Option<String>,
    /// Only save the extension listing; excludes the other options.
    pub save_only: bool,
}

impl Opts {
    /// The save-only mode stands alone: it excludes a list file and an
    /// output directory.
    pub open spec fn consistent(&self) -> bool {
        self.save_only ==> self.file is None && self.dir is None
    }

    /// Whether the options respect the save-only exclusivity rule.
    pub fn validate(&self) -> (r: bool)
        ensures
            r == self.consistent(),
    {
        !self.save_only || (self.file.is_none() && self.dir.is_none())
    }

    /// The output directory to download into: the configured one, or the
    /// current directory (the empty path) when none is set.
    pub fn effective_dir(&self) -> (r: &str)
        ensures
            r@ == match self.dir {
                Some(d) => d@,
                None => Seq::<char>::empty(),
            },
    {
        proof {
            reveal_strlit("");
            assert(""@ =~= Seq::<char>::empty());
        }
        match &self.dir {
            Some(d) => d.as_str(),
            None => "",
        }
    }
}

/// An error that aborts the whole run: the identifier set itself could not
/// be established.
#[derive(Debug)]
pub struct FatalError {
    /// What the failing collaborator reported.
    pub message: String,
}

/// The decision at the host-listing boundary: a successful exit hands the
/// standard output on, a failing one is fatal and carries the standard
/// error.
pub fn command_output(success: bool, stdout: String, stderr: String) -> (r: Result<
    String,
    FatalError,
>)
    ensures
        success ==> (r matches Ok(o) && o == stdout),
        !success ==> (r matches Err(e) && e.message == stderr),
{
    if success {
        Ok(stdout)
    } else {
        Err(FatalError { message: stderr })
    }
}

/// The lines of `s` split at every newline, keeping empty lines; one more
/// line than there are newlines.
pub open spec fn split_lines(s: Seq<char>) -> Seq<Seq<char>>
    decreases s.len(),
{
    if s.len() == 0 {
        seq![Seq::<char>::empty()]
    } else if s[0] == '\n' {
        seq![Seq::<char>::empty()] + split_lines(s.drop_first())
    } else {
        let rest = split_lines(s.drop_first());
        seq![seq![s[0]] + rest[0]] + rest.drop_first()
    }
}

proof fn lemma_split_lines_len(s: Seq<char>)
    ensures
        split_lines(s).len() >= 1,
    decreases s.len(),
{
    if s.len() > 0 {
        lemma_split_lines_len(s.drop_first());
    }
}

/// Splitting at the first newline of `s[lo..hi]` peels off one line.
proof fn lemma_split_step(s: Seq<char>, lo: int, i: int, hi: int)
    requires
        0 <= lo <= i < hi <= s.len(),
        s[i] == '\n',
        forall|k: int| lo <= k < i ==> s[k] != '\n',
    ensures
        split_lines(s.subrange(lo, hi)) == seq![s.subrange(lo, i)] + split_lines(
            s.subrange(i + 1, hi),
        ),
    decreases i - lo,
{
    let w = s.subrange(lo, hi);
    lemma_split_lines_len(s.subrange(i + 1, hi));
    if i == lo {
        assert(w[0] == '\n');
        assert(w.drop_first() =~= s.subrange(i + 1, hi));
        assert(s.subrange(lo, i) =~= Seq::<char>::empty());
        assert(split_lines(w) =~= seq![s.subrange(lo, i)] + split_lines(s.subrange(i + 1, hi)));
    } else {
        assert(w[0] == s[lo]);
        assert(w[0] != '\n');
        lemma_split_step(s, lo + 1, i, hi);
        let rest = split_lines(w.drop_first());
        assert(w.drop_first() =~= s.subrange(lo + 1, hi));
        assert(rest == seq![s.subrange(lo + 1, i)] + split_lines(s.subrange(i + 1, hi)));
        assert(rest[0] == s.subrange(lo + 1, i));
        assert(seq![w[0]] + rest[0] =~= s.subrange(lo, i));
        assert(rest.drop_first() =~= split_lines(s.subrange(i + 1, hi)));
        assert(split_lines(w) =~= seq![s.subrange(lo, i)] + split_lines(s.subrange(i + 1, hi)));
    }
}

/// A stretch without newlines is a single line.
proof fn lemma_split_tail(s: Seq<char>, lo: int, hi: int)
    requires
        0 <= lo <= hi <= s.len(),
        forall|k: int| lo <= k < hi ==> s[k] != '\n',
    ensures
        split_lines(s.subrange(lo, hi)) == seq![s.subrange(lo, hi)],
    decreases hi - lo,
{
    let w = s.subrange(lo, hi);
    if lo == hi {
        assert(w.len() == 0);
        assert(w =~= Seq::<char>::empty());
        assert(split_lines(w) =~= seq![s.subrange(lo, hi)]);
    } else {
        assert(w[0] == s[lo]);
        assert(w[0] != '\n');
        lemma_split_tail(s, lo + 1, hi);
        let rest = split_lines(w.drop_first());
        assert(w.drop_first() =~= s.subrange(lo + 1, hi));
        assert(rest == seq![s.subrange(lo + 1, hi)]);
        assert(rest[0] == s.subrange(lo + 1, hi));
        assert(seq![w[0]] + rest[0] =~= s.subrange(lo, hi));
        assert(rest.drop_first() =~= Seq::<Seq<char>>::empty());
        assert(split_lines(w) =~= seq![s.subrange(lo, hi)]);
    }
}

/// Split the text a host listing command printed into its lines; splitting
/// never fails.
pub fn parse_excmd_res<'a>(res: &'a str) -> (r: Result<Vec<&'a str>, crate::extension::ParseError>)
    ensures
        r matches Ok(v) && v.deep_view() == split_lines(res@),
{
    let n = res.unicode_len();
    let mut parts: Vec<&'a str> = Vec::new();
    let mut start: usize = 0;
    let mut i: usize = 0;
    proof {
        assert(res@.subrange(0, n as int) =~= res@);
    }
    while i < n
        invariant
            start <= i <= n == res@.len(),
            forall|k: int| start <= k < i ==> res@[k] != '\n',
            split_lines(res@) == parts.deep_view() + split_lines(
                res@.subrange(start as int, n as int),
            ),
        decreases n - i,
    {
        if res.get_char(i) == '\n' {
            let piece = res.substring_char(start, i);
            proof {
                lemma_split_step(res@, start as int, i as int, n as int);
            }
            parts.push(piece);
            proof {
                assert(parts.deep_view() =~= parts.deep_view().subrange(
                    0,
                    parts.deep_view().len() - 1,
                ) + seq![piece@]);
            }
            start = i + 1;
        }
        i += 1;
    }
    let last = res.substring_char(start, n);
    proof {
        lemma_split_tail(res@, start as int, n as int);
    }
    parts.push(last);
    proof {
        assert(parts.deep_view() =~= parts.deep_view().subrange(0, parts.deep_view().len() - 1)
            + seq![last@]);
        assert(parts.deep_view() =~= split_lines(res@));
    }
    Ok(parts)
}

/// The identifiers parsed out of a sequence of raw lines, in order: blank
/// lines are ignored, matching tokens are kept as their segments.
pub open spec fn parsed_ids(lines: Seq<Seq<char>>) -> Seq<(Seq<char>, Seq<char>, Seq<char>)>
    decreases lines.len(),
{
    if lines.len() == 0 {
        Seq::empty()
    } else {
        let rest = parsed_ids(lines.drop_last());
        if lines.last().len() > 0 && matches_grammar(lines.last()) {
            rest.push(spec_fields(lines.last()))
        } else {
            rest
        }
    }
}

/// The non-blank lines that do not match the grammar, in order: the
/// tokens a run skips and logs.
pub open spec fn rejected_tokens(lines: Seq<Seq<char>>) -> Seq<Seq<char>>
    decreases lines.len(),
{
    if lines.len() == 0 {
        Seq::empty()
    } else {
        let rest = rejected_tokens(lines.drop_last());
        if lines.last().len() > 0 && !matches_grammar(lines.last()) {
            rest.push(lines.last())
        } else {
            rest
        }
    }
}

/// Collect identifiers from raw lines: blank lines are ignored, malformed
/// tokens are skipped and handed back for logging, and the batch is never
/// aborted by a bad token.
pub fn collect_extensions(lines: &Vec<String>) -> (r: (Vec<ExtensionInfo>, Vec<String>))
    ensures
        r.0@.map_values(|e: ExtensionInfo| e@) == parsed_ids(lines.deep_view()),
        r.1.deep_view() == rejected_tokens(lines.deep_view()),
{
    let ghost lv = lines.deep_view();
    let mut ids: Vec<ExtensionInfo> = Vec::new();
    let mut bad: Vec<String> = Vec::new();
    let mut i: usize = 0;
    proof {
        assert(lv.take(0) =~= Seq::<Seq<char>>::empty());
    }
    while i < lines.len()
        invariant
            i <= lines.len(),
            lv == lines.deep_view(),
            ids@.map_values(|e: ExtensionInfo| e@) == parsed_ids(lv.take(i as int)),
            bad.deep_view() == rejected_tokens(lv.take(i as int)),
        decreases lines.len() - i,
    {
        proof {
            assert(lv.take(i + 1).drop_last() =~= lv.take(i as int));
            assert(lv.take(i + 1).last() == lv[i as int]);
            assert(lines@[i as int]@ == lv[i as int]);
        }
        let line = &lines[i];
        if !line.as_str().is_empty() {
            match ExtensionInfo::try_from(line.as_str()) {
                Ok(e) => {
                    let ghost before = ids@.map_values(|x: ExtensionInfo| x@);
                    ids.push(e);
                    proof {
                        assert(ids@.map_values(|x: ExtensionInfo| x@) =~= before.push(e@));
                    }
                },
                Err(err) => {
                    let ghost before = bad.deep_view();
                    bad.push(err.token);
                    proof {
                        assert(bad.deep_view() =~= before.push(lv[i as int]));
                    }
                },
            }
        }
        i += 1;
    }
    proof {
        assert(lv.take(lines.len() as int) =~= lv);
    }
    (ids, bad)
}

/// Collect identifiers from the text a host listing command printed: its
/// lines, filtered and parsed as `collect_extensions` does.
pub fn extensions_from_listing(res: &str) -> (r: (Vec<ExtensionInfo>, Vec<String>))
    ensures
        r.0@.map_values(|e: ExtensionInfo| e@) == parsed_ids(split_lines(res@)),
        r.1.deep_view() == rejected_tokens(split_lines(res@)),
{
    let lines = match parse_excmd_res(res) {
        Ok(v) => v,
        Err(_) => vstd::pervasive::unreached(),
    };
    let ghost lv = split_lines(res@);
    let mut ids: Vec<ExtensionInfo> = Vec::new();
    let mut bad: Vec<String> = Vec::new();
    let mut i: usize = 0;
    proof {
        assert(lv.take(0) =~= Seq::<Seq<char>>::empty());
    }
    while i < lines.len()
        invariant
            i <= lines.len(),
            lv == lines.deep_view(),
            ids@.map_values(|e: ExtensionInfo| e@) == parsed_ids(lv.take(i as int)),
            bad.deep_view() == rejected_tokens(lv.take(i as int)),
        decreases lines.len() - i,
    {
        proof {
            assert(lv.take(i + 1).drop_last() =~= lv.take(i as int));
            assert(lv.take(i + 1).last() == lv[i as int]);
            assert(lines@[i as int]@ == lv[i as int]);
        }
        let line = lines[i];
        if !line.is_empty() {
            match ExtensionInfo::try_from(line) {
                Ok(e) => {
                    let ghost before = ids@.map_values(|x: ExtensionInfo| x@);
                    ids.push(e);
                    proof {
                        assert(ids@.map_values(|x: ExtensionInfo| x@) =~= before.push(e@));
                    }
                },
                Err(err) => {
                    let ghost before = bad.deep_view();
                    bad.push(err.token);
                    proof {
                        assert(bad.deep_view() =~= before.push(lv[i as int]));
                    }
                },
            }
        }
        i += 1;
    }
    proof {
        assert(lv.take(lines.len() as int) =~= lv);
    }
    (ids, bad)
}

} // verus!
