//! The format of a set of teacher files, from their file extensions.

use vstd::prelude::*;
use vstd::string::StrSliceExecFns;
use crate::seqs::spec_collect;
use crate::text::concat_strs;

verus! {

/// Teacher file format.
#[derive(Clone, Copy, Debug, PartialEq, Eq, Structural)]
pub enum DataFormat {
    /// 38-byte HCPE records.
    Hcpe,
    /// Variable-length HCPE3 games.
    Hcpe3,
    /// Variable-length `.pack` games.
    Pack,
    /// 40-byte training records.
    Psv,
}

/// Name of a format as its debug form writes it.
pub open spec fn spec_format_name(f: DataFormat) -> Seq<char> {
    match f {
        DataFormat::Hcpe => "Hcpe"@,
        DataFormat::Hcpe3 => "Hcpe3"@,
        DataFormat::Pack => "Pack"@,
        DataFormat::Psv => "Psv"@,
    }
}

impl DataFormat {
    /// Name of the format as its debug form writes it.
    pub fn name(self) -> (r: &'static str)
        ensures
            r@ == spec_format_name(self),
    {
        match self {
            DataFormat::Hcpe => "Hcpe",
            DataFormat::Hcpe3 => "Hcpe3",
            DataFormat::Pack => "Pack",
            DataFormat::Psv => "Psv",
        }
    }
}

/// `c` is `lower` in either ASCII case.
pub open spec fn spec_char_ieq(c: char, lower: char) -> bool {
    c == lower || ('a' <= lower <= 'z' && c as u32 == lower as u32 - 32)
}

/// `s` is `lower` in ASCII case-insensitive comparison.
pub open spec fn spec_str_ieq(s: Seq<char>, lower: Seq<char>) -> bool {
    s.len() == lower.len() && forall|i: int| 0 <= i < s.len() ==> #[trigger] spec_char_ieq(s[i], lower[i])
}

fn char_ieq(c: char, lower: char) -> (r: bool)
    ensures
        r == spec_char_ieq(c, lower),
{
    c == lower || ('a' <= lower && lower <= 'z' && (c as u32) + 32 == lower as u32)
}

/// Whether `s` equals `lower` ignoring ASCII case.
pub fn str_ieq(s: &str, lower: &str) -> (r: bool)
    ensures
        r == spec_str_ieq(s@, lower@),
{
    let n = s.unicode_len();
    if n != lower.unicode_len() {
        return false;
    }
    let mut i: usize = 0;
    while i < n
        invariant
            i <= n,
            n == s@.len(),
            n == lower@.len(),
            forall|k: int| 0 <= k < i ==> #[trigger] spec_char_ieq(s@[k], lower@[k]),
        decreases n - i,
    {
        if !char_ieq(s.get_char(i), lower.get_char(i)) {
            return false;
        }
        i = i + 1;
    }
    true
}

/// Format of a file extension, compared ignoring ASCII case: `hcpe`,
/// `hcpe3`, `pack` or `psv`; `None` for any other extension or none.
pub open spec fn spec_format_of_extension(ext: Option<Seq<char>>) -> Option<DataFormat> {
    match ext {
        Some(e) => if spec_str_ieq(e, "hcpe"@) {
            Some(DataFormat::Hcpe)
        } else if spec_str_ieq(e, "hcpe3"@) {
            Some(DataFormat::Hcpe3)
        } else if spec_str_ieq(e, "pack"@) {
            Some(DataFormat::Pack)
        } else if spec_str_ieq(e, "psv"@) {
            Some(DataFormat::Psv)
        } else {
            None
        },
        None => None,
    }
}

pub fn format_of_extension(ext: &Option<String>) -> (r: Option<DataFormat>)
    ensures
        r == spec_format_of_extension(
            match ext {
                Some(e) => Some(e@),
                None => None,
            },
        ),
{
    match ext {
        Some(e) => {
            if str_ieq(e.as_str(), "hcpe") {
                Some(DataFormat::Hcpe)
            } else if str_ieq(e.as_str(), "hcpe3") {
                Some(DataFormat::Hcpe3)
            } else if str_ieq(e.as_str(), "pack") {
                Some(DataFormat::Pack)
            } else if str_ieq(e.as_str(), "psv") {
                Some(DataFormat::Psv)
            } else {
                None
            }
        },
        None => None,
    }
}

/// Views of optional extensions.
pub open spec fn spec_ext_views(exts: Seq<Option<String>>) -> Seq<Option<Seq<char>>> {
    exts.map_values(
        |e: Option<String>|
            match e {
                Some(s) => Some(s@),
                None => None,
            },
    )
}

/// Message for a path whose extension names no format.
pub open spec fn spec_unknown_format_message(path: Seq<char>) -> Seq<char> {
    "cannot infer data format from path: "@ + path + "\n  expected file extension: .hcpe / .hcpe3 / .pack / .psv"@
}

/// Message for a path of another format than the paths before it.
pub open spec fn spec_mixed_format_message(path: Seq<char>, f: DataFormat, prev: DataFormat) -> Seq<char> {
    "mixed data formats: "@ + path + " is "@ + spec_format_name(f) + " but previous file(s) were "@
        + spec_format_name(prev)
}

/// Outcome of checking the first `n` extensions: the common format so far,
/// or the message of the first path that breaks it.
pub open spec fn spec_infer_upto(paths: Seq<Seq<char>>, exts: Seq<Option<Seq<char>>>, n: int) -> Result<
    Option<DataFormat>,
    Seq<char>,
>
    decreases n,
{
    if n <= 0 {
        Ok(None)
    } else {
        match spec_infer_upto(paths, exts, n - 1) {
            Err(m) => Err(m),
            Ok(found) => match spec_format_of_extension(exts[n - 1]) {
                None => Err(spec_unknown_format_message(paths[n - 1])),
                Some(f) => match found {
                    None => Ok(Some(f)),
                    Some(prev) => if prev == f {
                        Ok(Some(f))
                    } else {
                        Err(spec_mixed_format_message(paths[n - 1], f, prev))
                    },
                },
            },
        }
    }
}

proof fn lemma_infer_err_stays(
    paths: Seq<Seq<char>>,
    exts: Seq<Option<Seq<char>>>,
    k: int,
    n: int,
    m: Seq<char>,
)
    requires
        0 <= k <= n,
        spec_infer_upto(paths, exts, k) == Err::<Option<DataFormat>, Seq<char>>(m),
    ensures
        spec_infer_upto(paths, exts, n) == Err::<Option<DataFormat>, Seq<char>>(m),
    decreases n - k,
{
    if k < n {
        lemma_infer_err_stays(paths, exts, k, n - 1, m);
    }
}

/// The format common to paths with extensions `exts`: every extension must
/// name a format, all the same; an empty list is an error too.
pub open spec fn spec_infer_data_format(paths: Seq<Seq<char>>, exts: Seq<Option<Seq<char>>>) -> Result<
    DataFormat,
    Seq<char>,
> {
    match spec_infer_upto(paths, exts, paths.len() as int) {
        Err(m) => Err(m),
        Ok(Some(f)) => Ok(f),
        Ok(None) => Err("no data files provided"@),
    }
}

/// Views of string slices.
pub open spec fn spec_str_views(paths: Seq<&str>) -> Seq<Seq<char>> {
    paths.map_values(|p: &str| p@)
}

/// The format common to `paths` given their extensions `exts` (see
/// [`spec_infer_data_format`]).
pub fn infer_data_format_from_extensions(paths: &[&str], exts: &[Option<String>]) -> (r: Result<DataFormat, String>)
    requires
        paths@.len() == exts@.len(),
    ensures
        match spec_infer_data_format(spec_str_views(paths@), spec_ext_views(exts@)) {
            Ok(f) => r == Ok::<DataFormat, String>(f),
            Err(m) => r matches Err(e) && e@ == m,
        },
{
    let ghost ps = spec_str_views(paths@);
    let ghost es = spec_ext_views(exts@);
    let mut found: Option<DataFormat> = None;
    let mut i: usize = 0;
    while i < paths.len()
        invariant
            i <= paths@.len(),
            paths@.len() == exts@.len(),
            ps == spec_str_views(paths@),
            es == spec_ext_views(exts@),
            spec_infer_upto(ps, es, i as int) == Ok::<Option<DataFormat>, Seq<char>>(found),
        decreases paths@.len() - i,
    {
        let p = paths[i];
        assert(ps[i as int] == p@);
        assert(es[i as int] == match exts@[i as int] {
            Some(e) => Some(e@),
            None => None,
        });
        let fmt = match format_of_extension(&exts[i]) {
            Some(f) => f,
            None => {
                let a = concat_strs("cannot infer data format from path: ", p);
                let b = concat_strs(a.as_str(), "\n  expected file extension: .hcpe / .hcpe3 / .pack / .psv");
                proof {
                    lemma_infer_err_stays(ps, es, i as int + 1, paths@.len() as int, b@);
                }
                return Err(b);
            },
        };
        match found {
            None => {
                found = Some(fmt);
            },
            Some(prev) => {
                if prev != fmt {
                    let a = concat_strs("mixed data formats: ", p);
                    let b = concat_strs(a.as_str(), " is ");
                    let c = concat_strs(b.as_str(), fmt.name());
                    let d = concat_strs(c.as_str(), " but previous file(s) were ");
                    let e = concat_strs(d.as_str(), prev.name());
                    proof {
                        lemma_infer_err_stays(ps, es, i as int + 1, paths@.len() as int, e@);
                    }
                    return Err(e);
                }
            },
        }
        i = i + 1;
    }
    match found {
        Some(f) => Ok(f),
        None => Err("no data files provided".to_owned()),
    }
}

/// Whether every platform splits `p` into components at `/` alone: no
/// `\\`, no `:` (drive prefixes) and no leading `//` (network prefixes).
pub open spec fn spec_portable_path(p: Seq<char>) -> bool {
    &&& !p.contains('\\')
    &&& !p.contains(':')
    &&& !(p.len() >= 2 && p[0] == '/' && p[1] == '/')
}

/// The characters of `p` after its last `/` (all of `p` when it has none).
pub open spec fn spec_tail_segment(p: Seq<char>) -> Seq<char>
    decreases p.len(),
{
    if p.len() == 0 || p.last() == '/' {
        Seq::empty()
    } else {
        spec_tail_segment(p.drop_last()).push(p.last())
    }
}

/// The last component of `p` split at `/`, empty and `.` components left
/// out; empty when there is none.
pub open spec fn spec_last_component(p: Seq<char>) -> Seq<char>
    decreases p.len(),
{
    if p.len() == 0 {
        Seq::empty()
    } else if p.last() == '/' {
        spec_last_component(p.drop_last())
    } else if p.last() == '.' && (p.len() == 1 || p[p.len() - 2] == '/') {
        spec_last_component(p.drop_last())
    } else {
        spec_tail_segment(p)
    }
}

/// Extension of a path: that of its last component (see
/// [`spec_file_extension`]); none when there is no last component or it is
/// `..`.
pub open spec fn spec_path_extension(p: Seq<char>) -> Option<Seq<char>> {
    let c = spec_last_component(p);
    if c == seq!['.', '.'] {
        None
    } else {
        spec_file_extension(c)
    }
}

/// Index of the last dot of `p`; -1 when it has none.
pub open spec fn spec_last_dot(p: Seq<char>) -> int
    decreases p.len(),
{
    if p.len() == 0 {
        -1
    } else if p.last() == '.' {
        p.len() - 1
    } else {
        spec_last_dot(p.drop_last())
    }
}

/// Extension of a bare file name: what follows its last dot; none when it
/// has no dot or its last dot is its first character.
pub open spec fn spec_file_extension(p: Seq<char>) -> Option<Seq<char>> {
    if spec_last_dot(p) <= 0 {
        None
    } else {
        Some(p.subrange(spec_last_dot(p) + 1, p.len() as int))
    }
}

/// View of an optional string.
pub open spec fn spec_opt_view(e: Option<String>) -> Option<Seq<char>> {
    match e {
        Some(s) => Some(s@),
        None => None,
    }
}

/// Extension of a path: `Path::extension` of std (the part of the file
/// name after its last dot; none when the file name has no dot, its last
/// dot is its first character, or there is no file name, as for `..`), as a
/// `String`.
///
/// `Path::file_name` is the last component, where components are split
/// at separators with empty and `.` components left out, and is none for
/// `..`. Which characters separate, and which start a prefix, depends on
/// the platform only through `\\`, `:` and a leading `//`; the contract
/// states the extension for paths without them (see
/// [`spec_portable_path`], [`spec_path_extension`]) and of every path that
/// the extension holds no dot.
#[verifier::external_body]
pub(crate) fn path_extension(path: &str) -> (r: Option<String>)
    ensures
        r matches Some(e) ==> !e@.contains('.'),
        spec_portable_path(path@) ==> spec_opt_view(r) == spec_path_extension(path@),
{
    std::path::Path::new(path).extension().and_then(|e| e.to_str()).map(|e| e.to_owned())
}

/// Extensions of paths (see [`spec_path_extension`]).
pub open spec fn spec_path_extensions(paths: Seq<&str>) -> Seq<Option<Seq<char>>> {
    paths.map_values(|p: &str| spec_path_extension(p@))
}

/// The format common to `paths`, from their file extensions: every path
/// must have an extension naming a format (`hcpe`, `hcpe3`, `pack`, `psv`,
/// ignoring case), all the same; an empty list is an error. For paths
/// without `\\`, `:` or a leading `//` the extensions are those of
/// [`spec_path_extension`].
pub fn infer_data_format(paths: &[&str]) -> (r: Result<DataFormat, String>)
    ensures
        paths@.len() == 0 ==> (r matches Err(e) && e@ == "no data files provided"@),
        (forall|i: int| 0 <= i < paths@.len() ==> spec_portable_path(#[trigger] paths@[i]@)) ==> match spec_infer_data_format(
            spec_str_views(paths@),
            spec_path_extensions(paths@),
        ) {
            Ok(f) => r == Ok::<DataFormat, String>(f),
            Err(m) => r matches Err(e) && e@ == m,
        },
        exists|exts: Seq<Option<Seq<char>>>|
            #![trigger spec_infer_data_format(spec_str_views(paths@), exts)]
            exts.len() == paths@.len() && match spec_infer_data_format(spec_str_views(paths@), exts) {
                Ok(f) => r == Ok::<DataFormat, String>(f),
                Err(m) => r matches Err(e) && e@ == m,
            },
{
    let mut exts: Vec<Option<String>> = Vec::new();
    let mut i: usize = 0;
    while i < paths.len()
        invariant
            i <= paths@.len(),
            exts@.len() == i,
            forall|k: int|
                0 <= k < i && spec_portable_path(paths@[k]@) ==> spec_opt_view(#[trigger] exts@[k])
                    == spec_path_extension(paths@[k]@),
        decreases paths@.len() - i,
    {
        exts.push(path_extension(paths[i]));
        i = i + 1;
    }
    let r = infer_data_format_from_extensions(paths, exts.as_slice());
    let ghost w = spec_ext_views(exts@);
    assert(w.len() == paths@.len());
    assert(match spec_infer_data_format(spec_str_views(paths@), w) {
        Ok(f) => r == Ok::<DataFormat, String>(f),
        Err(m) => r matches Err(e) && e@ == m,
    });
    proof {
        if forall|k: int| 0 <= k < paths@.len() ==> spec_portable_path(#[trigger] paths@[k]@) {
            assert forall|k: int| 0 <= k < w.len() implies #[trigger] w[k] == spec_path_extensions(paths@)[k] by {
                assert(spec_portable_path(paths@[k]@));
                assert(spec_opt_view(exts@[k]) == spec_path_extension(paths@[k]@));
            }
            assert(w =~= spec_path_extensions(paths@));
        }
    }
    r
}

/// Whether `c` has the Unicode `White_Space` property: tab, line feed,
/// vertical tab, form feed, carriage return, space, U+0085, U+00A0,
/// U+1680, U+2000 to U+200A, U+2028, U+2029, U+202F, U+205F and U+3000.
pub open spec fn spec_is_whitespace(c: char) -> bool {
    let v = c as u32;
    ||| 0x09 <= v <= 0x0D
    ||| v == 0x20
    ||| v == 0x85
    ||| v == 0xA0
    ||| v == 0x1680
    ||| 0x2000 <= v <= 0x200A
    ||| v == 0x2028
    ||| v == 0x2029
    ||| v == 0x202F
    ||| v == 0x205F
    ||| v == 0x3000
}

/// Whether `c` has the Unicode `White_Space` property, as
/// `char::is_whitespace` of std decides it (see [`spec_is_whitespace`]).
fn char_is_whitespace(c: char) -> (r: bool)
    ensures
        r == spec_is_whitespace(c),
{
    let v = c as u32;
    (0x09 <= v && v <= 0x0D) || v == 0x20 || v == 0x85 || v == 0xA0 || v == 0x1680 || (0x2000 <= v && v <= 0x200A)
        || v == 0x2028 || v == 0x2029 || v == 0x202F || v == 0x205F || v == 0x3000
}

/// The pieces of `s` between its commas, in order: one more piece than
/// there are commas, empty pieces included.
pub open spec fn spec_split_commas(s: Seq<char>) -> Seq<Seq<char>>
    decreases s.len(),
{
    if s.len() == 0 {
        seq![Seq::empty()]
    } else {
        let prev = spec_split_commas(s.drop_last());
        if s.last() == ',' {
            prev.push(Seq::empty())
        } else {
            prev.update(prev.len() - 1, prev.last().push(s.last()))
        }
    }
}

/// `s` without its leading whitespace.
pub open spec fn spec_trim_start(s: Seq<char>) -> Seq<char>
    decreases s.len(),
{
    if s.len() > 0 && spec_is_whitespace(s[0]) {
        spec_trim_start(s.drop_first())
    } else {
        s
    }
}

/// `s` without its trailing whitespace.
pub open spec fn spec_trim_end(s: Seq<char>) -> Seq<char>
    decreases s.len(),
{
    if s.len() > 0 && spec_is_whitespace(s.last()) {
        spec_trim_end(s.drop_last())
    } else {
        s
    }
}

/// `s` without leading and trailing whitespace.
pub open spec fn spec_trim(s: Seq<char>) -> Seq<char> {
    spec_trim_end(spec_trim_start(s))
}

/// The paths named by a `--teacher` argument: its comma-separated pieces,
/// trimmed of whitespace, the empty ones left out.
pub open spec fn spec_teacher_parts(s: Seq<char>) -> Seq<Seq<char>> {
    spec_collect(
        spec_split_commas(s),
        |p: Seq<char>|
            if spec_trim(p).len() > 0 {
                Some(spec_trim(p))
            } else {
                None
            },
    )
}

/// Bounds of `s[from..to]` trimmed of whitespace.
fn trimmed_bounds(s: &str, from: usize, to: usize) -> (r: (usize, usize))
    requires
        from <= to <= s@.len(),
    ensures
        from <= r.0 <= r.1 <= to,
        s@.subrange(r.0 as int, r.1 as int) == spec_trim(s@.subrange(from as int, to as int)),
{
    let mut a = from;
    while a < to && char_is_whitespace(s.get_char(a))
        invariant
            from <= a <= to <= s@.len(),
            spec_trim_start(s@.subrange(from as int, to as int)) == spec_trim_start(s@.subrange(a as int, to as int)),
        decreases to - a,
    {
        assert(s@.subrange(a as int, to as int).drop_first() =~= s@.subrange(a + 1, to as int));
        a = a + 1;
    }
    assert(spec_trim_start(s@.subrange(from as int, to as int)) == s@.subrange(a as int, to as int));
    let mut b = to;
    while b > a && char_is_whitespace(s.get_char(b - 1))
        invariant
            from <= a <= b <= to <= s@.len(),
            spec_trim(s@.subrange(from as int, to as int)) == spec_trim_end(s@.subrange(a as int, b as int)),
        decreases b - a,
    {
        assert(s@.subrange(a as int, b as int).drop_last() =~= s@.subrange(a as int, b - 1));
        b = b - 1;
    }
    (a, b)
}

/// The paths named by a `--teacher` argument (see
/// [`spec_teacher_parts`]).
pub fn teacher_list_parts(teacher: &str) -> (r: Vec<String>)
    ensures
        r@.map_values(|p: String| p@) == spec_teacher_parts(teacher@),
{
    let n = teacher.unicode_len();
    let mut out: Vec<String> = Vec::new();
    let ghost mut done: Seq<Seq<char>> = Seq::empty();
    let mut start: usize = 0;
    let mut i: usize = 0;
    let ghost f: spec_fn(Seq<char>) -> Option<Seq<char>> = |p: Seq<char>|
        if spec_trim(p).len() > 0 {
            Some(spec_trim(p))
        } else {
            None
        };
    assert(teacher@.take(0) =~= Seq::<char>::empty());
    assert(done.push(teacher@.subrange(0, 0)) =~= seq![Seq::<char>::empty()]);
    while i < n
        invariant
            n == teacher@.len(),
            start <= i <= n,
            spec_split_commas(teacher@.take(i as int)) == done.push(teacher@.subrange(start as int, i as int)),
            out@.map_values(|p: String| p@) == spec_collect(done, f),
            forall|p: Seq<char>| #[trigger] f(p) == if spec_trim(p).len() > 0 {
                Some(spec_trim(p))
            } else {
                None
            },
        decreases n - i,
    {
        let c = teacher.get_char(i);
        let ghost prev = spec_split_commas(teacher@.take(i as int));
        assert(teacher@.take(i + 1).drop_last() =~= teacher@.take(i as int));
        assert(teacher@.take(i + 1).last() == c);
        if c == ',' {
            let (a, b) = trimmed_bounds(teacher, start, i);
            let ghost piece0 = teacher@.subrange(start as int, i as int);
            let ghost before = out@;
            if a < b {
                let piece = teacher.substring_char(a, b).to_owned();
                out.push(piece);
                assert(out@.map_values(|p: String| p@) =~= before.map_values(|p: String| p@).push(spec_trim(piece0)));
            }
            proof {
                assert(done.push(piece0).drop_last() =~= done);
                done = done.push(piece0);
                assert(teacher@.subrange(i + 1, i + 1) =~= Seq::<char>::empty());
            }
            start = i + 1;
        } else {
            assert(teacher@.subrange(start as int, i + 1) =~= teacher@.subrange(start as int, i as int).push(c));
        }
        i = i + 1;
    }
    assert(teacher@.take(n as int) =~= teacher@);
    let (a, b) = trimmed_bounds(teacher, start, n);
    let ghost piece0 = teacher@.subrange(start as int, n as int);
    let ghost before = out@;
    if a < b {
        let piece = teacher.substring_char(a, b).to_owned();
        out.push(piece);
        assert(out@.map_values(|p: String| p@) =~= before.map_values(|p: String| p@).push(spec_trim(piece0)));
    }
    assert(done.push(piece0).drop_last() =~= done);
    out
}

} // verus!
