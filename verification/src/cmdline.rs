//! The tool's command-line options as a plain record, and the parser for the
//! `NAME=PATH` pairs that point at the bindings already generated for a
//! dependency.

use vstd::prelude::*;
use vstd::string::{StrSliceExecFns, StringExecFns};

use crate::error::Error;

verus! {

/// The options of one run of the tool.  Reading the command line itself
/// happens outside the library; this record carries the result.
pub struct Cmdline {
    /// Output path for the C++ header file with the bindings.
    pub h_out: String,
    /// Output path for the Rust implementation of the bindings.
    pub rs_out: String,
    /// The directory of the support headers, exactly as it should be spelled
    /// in `#include` directives of the generated files.
    pub support_path: String,
    /// Path to the executable that formats the generated C++.
    pub clang_format_exe_path: String,
    /// Path to the executable that formats the generated Rust.
    pub rustfmt_exe_path: String,
    /// Optional path to a configuration file for the Rust formatter.
    pub rustfmt_config_path: Option<String>,
    /// For each dependency with already-generated bindings: its crate name
    /// and the include path of its header.
    pub bindings_from_dependencies: Vec<(String, String)>,
    /// The arguments handed on to the host compiler.
    pub rustc_args: Vec<String>,
}

/// Whether the string holds an `=` at all.
pub open spec fn has_eq(s: Seq<char>) -> bool {
    exists|i: int| 0 <= i < s.len() && s[i] == '='
}

/// The position of the first `=`.
pub open spec fn first_eq(s: Seq<char>) -> int {
    choose|i: int|
        0 <= i < s.len() && s[i] == '=' && (forall|j: int| 0 <= j < i ==> s[j] != '=')
}

/// Parses one `KEY=VALUE` argument into the pair of the crate's name and the
/// include path.  The split happens at the first `=`; the key and the value
/// must both be non-empty.
pub fn parse_bindings_from_dependency(s: &str) -> (r: Result<(String, String), Error>)
    ensures
        r is Ok <==> (has_eq(s@) && first_eq(s@) > 0 && first_eq(s@) + 1 < s@.len()),
        r matches Ok(kv) ==> {
            &&& kv.0@ == s@.subrange(0, first_eq(s@))
            &&& kv.1@ == s@.subrange(first_eq(s@) + 1, s@.len() as int)
        },
        r matches Err(e) ==> e@ == (if !has_eq(s@) {
            "Expected KEY=VALUE syntax but no `=` found in `"@ + s@ + "`"@
        } else if first_eq(s@) == 0 {
            "Empty crate names are invalid"@
        } else {
            "Empty include paths are invalid"@
        }),
{
    let n = s.unicode_len();
    let mut i: usize = 0;
    while i < n && s.get_char(i) != '='
        invariant
            n == s@.len(),
            i <= n,
            forall|j: int| 0 <= j < i ==> s@[j] != '=',
        decreases n - i,
    {
        i = i + 1;
    }
    if i == n {
        proof {
            assert(!has_eq(s@));
        }
        let mut m = String::from_str("Expected KEY=VALUE syntax but no `=` found in `");
        m.append(s);
        m.append("`");
        return Err(Error::new(m));
    }
    proof {
        assert(s@[i as int] == '=');
        assert(has_eq(s@));
        let w = first_eq(s@);
        assert(0 <= w < s@.len() && s@[w] == '=' && (forall|j: int| 0 <= j < w ==> s@[j] != '='));
        if w < i {
            assert(s@[w] != '=');
        }
        if w > i {
            assert(s@[i as int] != '=');
        }
        assert(w == i);
    }
    if i == 0 {
        return Err(Error::new(String::from_str("Empty crate names are invalid")));
    }
    if i + 1 == n {
        return Err(Error::new(String::from_str("Empty include paths are invalid")));
    }
    let key = s.substring_char(0, i);
    let value = s.substring_char(i + 1, n);
    Ok((String::from_str(key), String::from_str(value)))
}

} // verus!
