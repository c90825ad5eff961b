//! Shader stages and their mapping from file extensions.
//!
//! A shader source file is classified by the extension of its path:
//! `vert`, `frag`, `geom`, `comp`, `tesc` and `tese` name the six
//! programmable stages. The extension of a path is the part after the
//! last `.`, provided that dot lies after the last `/` and is not the
//! leading character of the file name.

use vstd::prelude::*;
use vstd::string::StrSliceExecFns;

verus! {

/// The programmable pipeline stage a shader source file targets.
#[derive(Clone, Copy, Debug, PartialEq, Eq, Structural)]
pub enum ShaderStage {
    Vertex,
    Fragment,
    Geometry,
    Compute,
    TessControl,
    TessEvaluation,
}

/// Lower-cased code point of a character, folding only ASCII letters.
pub open spec fn lower_code(c: char) -> u32 {
    if 65 <= c as u32 && c as u32 <= 90 {
        (c as u32 + 32) as u32
    } else {
        c as u32
    }
}

/// Two character sequences are equal up to ASCII case.
pub open spec fn seq_eq_ci(a: Seq<char>, b: Seq<char>) -> bool {
    a.len() == b.len() && forall|i: int| 0 <= i < a.len() ==> lower_code(a[i]) == lower_code(b[i])
}

/// Index of the last occurrence of `c` in `s`, if any.
pub open spec fn last_pos(s: Seq<char>, c: char) -> Option<int>
    decreases s.len(),
{
    if s.len() == 0 {
        None
    } else if s[s.len() - 1] == c {
        Some(s.len() - 1)
    } else {
        last_pos(s.drop_last(), c)
    }
}

/// The extension of a path: the part after the last `.`, provided that
/// dot lies after the last `/` and is not the file name's first character.
pub open spec fn spec_extension_of(path: Seq<char>) -> Option<Seq<char>> {
    match last_pos(path, '.') {
        None => None,
        Some(d) => match last_pos(path, '/') {
            None => if d >= 1 {
                Some(path.subrange(d + 1, path.len() as int))
            } else {
                None
            },
            Some(s) => if d >= s + 2 {
                Some(path.subrange(d + 1, path.len() as int))
            } else {
                None
            },
        },
    }
}

/// The stage named by an extension, compared up to ASCII case.
pub open spec fn spec_stage_of_extension(ext: Seq<char>) -> Option<ShaderStage> {
    if seq_eq_ci(ext, "vert"@) {
        Some(ShaderStage::Vertex)
    } else if seq_eq_ci(ext, "frag"@) {
        Some(ShaderStage::Fragment)
    } else if seq_eq_ci(ext, "geom"@) {
        Some(ShaderStage::Geometry)
    } else if seq_eq_ci(ext, "comp"@) {
        Some(ShaderStage::Compute)
    } else if seq_eq_ci(ext, "tesc"@) {
        Some(ShaderStage::TessControl)
    } else if seq_eq_ci(ext, "tese"@) {
        Some(ShaderStage::TessEvaluation)
    } else {
        None
    }
}

/// The stage a path's extension names, if the path has an extension
/// and the extension names one.
pub open spec fn spec_stage_of_path(path: Seq<char>) -> Option<ShaderStage> {
    match spec_extension_of(path) {
        None => None,
        Some(ext) => spec_stage_of_extension(ext),
    }
}

/// A last occurrence is a valid index holding `c`, with no `c` after it.
pub proof fn lemma_last_pos_props(s: Seq<char>, c: char)
    ensures
        match last_pos(s, c) {
            Some(j) => 0 <= j < s.len() && s[j] == c && forall|k: int| j < k < s.len() ==> s[k] != c,
            None => forall|k: int| 0 <= k < s.len() ==> s[k] != c,
        },
    decreases s.len(),
{
    if s.len() > 0 && s[s.len() - 1] != c {
        lemma_last_pos_props(s.drop_last(), c);
        let t = s.drop_last();
        assert(forall|k: int| 0 <= k < s.len() - 1 ==> s[k] == t[k]);
    }
}

proof fn lemma_last_pos_step(s: Seq<char>, i: int, c: char)
    requires
        0 <= i < s.len(),
    ensures
        last_pos(s.take(i + 1), c) == if s[i] == c {
            Some(i)
        } else {
            last_pos(s.take(i), c)
        },
{
    let t = s.take(i + 1);
    assert(t.len() == i + 1);
    assert(t[i] == s[i]);
    assert(t.drop_last() =~= s.take(i));
}

/// Exact string equality, stated over the views.
pub fn str_eq(a: &str, b: &str) -> (r: bool)
    ensures
        r == (a@ == b@),
{
    let an = a.unicode_len();
    let bn = b.unicode_len();
    if an != bn {
        return false;
    }
    let mut i: usize = 0;
    while i < an
        invariant
            an == a@.len(),
            an == b@.len(),
            0 <= i <= an,
            forall|j: int| 0 <= j < i ==> a@[j] == b@[j],
        decreases an - i,
    {
        if a.get_char(i) != b.get_char(i) {
            return false;
        }
        i += 1;
    }
    proof {
        assert(a@ =~= b@);
    }
    true
}

/// String equality up to ASCII case, stated over the views.
pub fn str_eq_ci(a: &str, b: &str) -> (r: bool)
    ensures
        r == seq_eq_ci(a@, b@),
{
    let an = a.unicode_len();
    let bn = b.unicode_len();
    if an != bn {
        return false;
    }
    let mut i: usize = 0;
    while i < an
        invariant
            an == a@.len(),
            an == b@.len(),
            0 <= i <= an,
            forall|j: int| 0 <= j < i ==> lower_code(a@[j]) == lower_code(b@[j]),
        decreases an - i,
    {
        let ac = a.get_char(i) as u32;
        let bc = b.get_char(i) as u32;
        let al = if 65 <= ac && ac <= 90 { ac + 32 } else { ac };
        let bl = if 65 <= bc && bc <= 90 { bc + 32 } else { bc };
        if al != bl {
            return false;
        }
        i += 1;
    }
    true
}

/// The extension of `path`, as `spec_extension_of` defines it.
pub fn extension_of(path: &str) -> (r: Option<String>)
    ensures
        match r {
            Some(e) => spec_extension_of(path@) == Some(e@),
            None => spec_extension_of(path@) is None,
        },
{
    let n = path.unicode_len();
    let mut last_dot: Option<usize> = None;
    let mut last_sep: Option<usize> = None;
    let mut i: usize = 0;
    while i < n
        invariant
            n == path@.len(),
            0 <= i <= n,
            last_pos(path@.take(i as int), '.') == match last_dot {
                Some(d) => Some(d as int),
                None => None::<int>,
            },
            last_pos(path@.take(i as int), '/') == match last_sep {
                Some(s) => Some(s as int),
                None => None::<int>,
            },
        decreases n - i,
    {
        let c = path.get_char(i);
        proof {
            lemma_last_pos_step(path@, i as int, '.');
            lemma_last_pos_step(path@, i as int, '/');
        }
        if c == '.' {
            last_dot = Some(i);
        } else if c == '/' {
            last_sep = Some(i);
        }
        i += 1;
    }
    proof {
        assert(path@.take(n as int) =~= path@);
    }
    match last_dot {
        None => None,
        Some(d) => {
            proof {
                lemma_last_pos_props(path@, '.');
            }
            let ok = match last_sep {
                None => d >= 1,
                Some(s) => d > s && d - s >= 2,
            };
            if ok {
                Some(path.substring_char(d + 1, n).to_owned())
            } else {
                None
            }
        },
    }
}

/// The stage a path names through its extension, if any.
pub fn stage_of_path(path: &str) -> (r: Option<ShaderStage>)
    ensures
        r == spec_stage_of_path(path@),
{
    match extension_of(path) {
        None => None,
        Some(ext) => stage_of_extension(ext.as_str()),
    }
}

/// The stage an extension names, compared up to ASCII case.
pub fn stage_of_extension(ext: &str) -> (r: Option<ShaderStage>)
    ensures
        r == spec_stage_of_extension(ext@),
{
    if str_eq_ci(ext, "vert") {
        Some(ShaderStage::Vertex)
    } else if str_eq_ci(ext, "frag") {
        Some(ShaderStage::Fragment)
    } else if str_eq_ci(ext, "geom") {
        Some(ShaderStage::Geometry)
    } else if str_eq_ci(ext, "comp") {
        Some(ShaderStage::Compute)
    } else if str_eq_ci(ext, "tesc") {
        Some(ShaderStage::TessControl)
    } else if str_eq_ci(ext, "tese") {
        Some(ShaderStage::TessEvaluation)
    } else {
        None
    }
}

} // verus!
