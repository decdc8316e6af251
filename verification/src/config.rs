//! The launch configuration and the plan derived from it.

use vstd::prelude::*;
use vstd::string::StrSliceExecFns;
use vstd::string::StringExecFns;
use crate::text::push_char;

verus! {

/// Immutable-per-session launch descriptor: where the server lives,
/// which jar to run, and the heap bounds to run it with.
pub struct ServerConfig {
    /// Optional display name.
    pub name: Option<String>,
    /// Server root directory.
    pub path: String,
    /// Jar file name, relative to the root.
    pub jar_name: String,
    /// Minimum heap size, e.g. "1G".
    pub min_ram: String,
    /// Maximum heap size, e.g. "2G".
    pub max_ram: String,
}

impl Clone for ServerConfig {
    fn clone(&self) -> (r: Self)
        ensures
            r.name == self.name,
            r.path@ == self.path@,
            r.jar_name@ == self.jar_name@,
            r.min_ram@ == self.min_ram@,
            r.max_ram@ == self.max_ram@,
    {
        ServerConfig {
            name: match &self.name {
                Some(n) => Some(n.clone()),
                None => None,
            },
            path: self.path.clone(),
            jar_name: self.jar_name.clone(),
            min_ram: self.min_ram.clone(),
            max_ram: self.max_ram.clone(),
        }
    }
}

/// Everything the operating system needs in order to launch the
/// server process, derived from a configuration.
pub struct LaunchPlan {
    /// Program to execute.
    pub program: String,
    /// Arguments, in order.
    pub args: Vec<String>,
    /// Working directory for the process: the configured server root.
    pub workdir: String,
    /// Name of the license-acceptance marker file, written into the
    /// working directory before every launch.
    pub eula_file: String,
    /// Contents written into the marker file.
    pub eula_contents: String,
}

/// The argument vector of a launch: heap bounds, the jar, no GUI.
pub open spec fn expected_args(c: ServerConfig) -> Seq<Seq<char>> {
    seq!["-Xms"@ + c.min_ram@, "-Xmx"@ + c.max_ram@, "-jar"@, c.jar_name@, "nogui"@]
}

/// The plan runs `java` in the configured directory with the
/// configured heap bounds and jar, after accepting the license.
pub open spec fn plan_for(p: LaunchPlan, c: ServerConfig) -> bool {
    &&& p.program@ == "java"@
    &&& p.args.deep_view() == expected_args(c)
    &&& p.workdir@ == c.path@
    &&& p.eula_file@ == "eula.txt"@
    &&& p.eula_contents@ == "eula=true"@
}

/// Build the launch plan for a configuration.
pub fn launch_plan(c: &ServerConfig) -> (r: LaunchPlan)
    ensures
        plan_for(r, *c),
{
    let mut args: Vec<String> = Vec::new();
    args.push(String::from_str("-Xms").concat(c.min_ram.as_str()));
    args.push(String::from_str("-Xmx").concat(c.max_ram.as_str()));
    args.push(String::from_str("-jar"));
    args.push(c.jar_name.clone());
    args.push(String::from_str("nogui"));
    proof {
        assert(args.deep_view() =~= expected_args(*c));
    }
    LaunchPlan {
        program: String::from_str("java"),
        args,
        workdir: c.path.clone(),
        eula_file: String::from_str("eula.txt"),
        eula_contents: String::from_str("eula=true"),
    }
}

/// A path character with the separator normalized: a backslash reads
/// as a forward slash.
pub open spec fn norm_char(c: char) -> char {
    if c == '\\' {
        '/'
    } else {
        c
    }
}

/// The path with every backslash replaced by a forward slash.
pub open spec fn norm_chars(s: Seq<char>) -> Seq<char> {
    Seq::new(s.len(), |i: int| norm_char(s[i]))
}

/// The path with trailing separators removed, so that a trailing
/// slash does not hide the last component.
pub open spec fn strip_trailing_seps(s: Seq<char>) -> Seq<char>
    decreases s.len(),
{
    if s.len() > 0 && s.last() == '/' {
        strip_trailing_seps(s.drop_last())
    } else {
        s
    }
}

/// Index of the last separator, or -1 if there is none.
pub open spec fn last_sep(s: Seq<char>) -> int
    decreases s.len(),
{
    if s.len() == 0 {
        -1
    } else if s.last() == '/' {
        s.len() - 1
    } else {
        last_sep(s.drop_last())
    }
}

/// A jar path split into its directory part and its file name:
/// separators are normalized to forward slashes, trailing separators
/// are dropped, and the split is at the last remaining separator (an
/// absent separator gives an empty directory part).  None exactly
/// when nothing but separators is left — a path with no file name.
pub open spec fn jar_split(path: Seq<char>) -> Option<(Seq<char>, Seq<char>)> {
    let t = strip_trailing_seps(norm_chars(path));
    if t.len() == 0 {
        None
    } else {
        let i = last_sep(t);
        if i < 0 {
            Some((Seq::<char>::empty(), t))
        } else {
            Some((t.subrange(0, i), t.subrange(i + 1, t.len() as int)))
        }
    }
}

proof fn lemma_strip_trailing_at(s: Seq<char>, j: int)
    requires
        0 <= j <= s.len(),
        forall|k: int| j <= k < s.len() ==> s[k] == '/',
        j > 0 ==> s[j - 1] != '/',
    ensures
        strip_trailing_seps(s) == s.subrange(0, j),
    decreases s.len() - j,
{
    if j == s.len() {
        assert(s.subrange(0, j) =~= s);
    } else {
        lemma_strip_trailing_at(s.drop_last(), j);
        assert(s.drop_last().subrange(0, j) =~= s.subrange(0, j));
    }
}

proof fn lemma_last_sep_at(s: Seq<char>, i: int)
    requires
        0 <= i <= s.len(),
        forall|k: int| i <= k < s.len() ==> s[k] != '/',
        i > 0 ==> s[i - 1] == '/',
    ensures
        last_sep(s) == i - 1,
    decreases s.len() - i,
{
    if i < s.len() {
        lemma_last_sep_at(s.drop_last(), i);
    }
}

/// A default configuration derived from a path to a jar file, as a
/// file picker hands it back: the jar's directory becomes the server
/// root, the jar's name the jar to run, with 1G/2G heap bounds and no
/// display name.  Exact with respect to `jar_split`: a configuration
/// is returned for every path that has a file-name part.
pub fn config_from_jar_path(path: &str) -> (r: Option<ServerConfig>)
    ensures
        r is Some <==> jar_split(path@) is Some,
        match r {
            Some(c) => jar_split(path@) == Some((c.path@, c.jar_name@)) && c.min_ram@ == "1G"@
                && c.max_ram@ == "2G"@ && c.name is None,
            None => true,
        },
{
    let n = path.unicode_len();
    let mut norm = String::new();
    let mut i: usize = 0;
    while i < n
        invariant
            n == path@.len(),
            i <= n,
            norm@ == norm_chars(path@).take(i as int),
        decreases n - i,
    {
        let c = path.get_char(i);
        if c == '\\' {
            push_char(&mut norm, '/');
        } else {
            push_char(&mut norm, c);
        }
        proof {
            assert(norm@ =~= norm_chars(path@).take(i + 1));
        }
        i += 1;
    }
    proof {
        assert(norm@ =~= norm_chars(path@));
    }

    let mut end: usize = n;
    while end > 0 && norm.as_str().get_char(end - 1) == '/'
        invariant
            n == norm@.len(),
            end <= n,
            forall|k: int| end <= k < n ==> norm@[k] == '/',
        decreases end,
    {
        end -= 1;
    }
    proof {
        lemma_strip_trailing_at(norm@, end as int);
    }
    if end == 0 {
        return None;
    }

    let mut k: usize = end;
    while k > 0 && norm.as_str().get_char(k - 1) != '/'
        invariant
            n == norm@.len(),
            k <= end <= n,
            forall|m: int| k <= m < end ==> norm@[m] != '/',
        decreases k,
    {
        k -= 1;
    }
    proof {
        let t = norm@.subrange(0, end as int);
        assert forall|m: int| k <= m < t.len() implies t[m] != '/' by {
            assert(t[m] == norm@[m]);
        }
        if k > 0 {
            assert(t[k - 1] == norm@[k - 1]);
        }
        lemma_last_sep_at(t, k as int);
    }

    let dir = if k == 0 {
        String::new()
    } else {
        norm.as_str().substring_char(0, k - 1).to_owned()
    };
    let file = norm.as_str().substring_char(k, end).to_owned();
    proof {
        let t = norm@.subrange(0, end as int);
        if k > 0 {
            assert(norm@.subrange(0, k - 1) =~= t.subrange(0, k - 1));
            assert(norm@.subrange(k as int, end as int) =~= t.subrange(k as int, t.len() as int));
        } else {
            assert(norm@.subrange(0, end as int) =~= t);
        }
    }
    Some(
        ServerConfig {
            name: None,
            path: dir,
            jar_name: file,
            min_ram: String::from_str("1G"),
            max_ram: String::from_str("2G"),
        },
    )
}

} // verus!
