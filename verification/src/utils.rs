//! The argument expander: a pure, total function that turns a formatter's
//! templated argument list into the concrete argument list for one file.
//! Each argument is scanned left to right, and every occurrence of the two
//! placeholder tokens is substituted, wherever in the argument it stands.

use crate::text::file_name_of;
use crate::text::file_name_spec;
use vstd::prelude::*;
use vstd::string::StrSliceExecFns;
use vstd::string::StringExecFns;

verus! {

/// One argument template expanded for the file at `path`: scanning left to
/// right, every occurrence of the path placeholder becomes the path, every
/// occurrence of the file name placeholder becomes the last path component,
/// and all other text passes through unchanged. Both placeholders are nine
/// characters long.
pub open spec fn expand_arg_spec(arg: Seq<char>, path: Seq<char>) -> Seq<char>
    decreases arg.len(),
{
    if arg.len() == 0 {
        arg
    } else if arg.len() >= 9 && arg.subrange(0, 9) == "$filepath"@ {
        path + expand_arg_spec(arg.skip(9), path)
    } else if arg.len() >= 9 && arg.subrange(0, 9) == "$filename"@ {
        file_name_spec(path) + expand_arg_spec(arg.skip(9), path)
    } else {
        seq![arg[0]] + expand_arg_spec(arg.drop_first(), path)
    }
}

/// True when the characters of `tok` stand in `arg` at position `i`.
fn token_at(arg: &str, i: usize, tok: &str) -> (b: bool)
    requires
        i <= arg@.len(),
    ensures
        b == (arg@.len() - i >= tok@.len() && arg@.subrange(
            i as int,
            i + tok@.len() as int,
        ) == tok@),
{
    let na = arg.unicode_len();
    let nt = tok.unicode_len();
    if na - i < nt {
        return false;
    }
    let mut k: usize = 0;
    while k < nt
        invariant
            na == arg@.len(),
            nt == tok@.len(),
            i <= na,
            na - i >= nt,
            0 <= k <= nt,
            forall|j: int| 0 <= j < k ==> arg@[i + j] == tok@[j],
        decreases nt - k,
    {
        if arg.get_char(i + k) != tok.get_char(k) {
            proof {
                assert(arg@.subrange(i as int, i + nt as int)[k as int] == arg@[i + k]);
            }
            return false;
        }
        k += 1;
    }
    proof {
        assert(arg@.subrange(i as int, i + nt as int) =~= tok@);
    }
    true
}

/// Expands one argument template for the file at `path`, whose last path
/// component is `name`.
fn expand_arg(arg: &str, path: &str, name: &str) -> (r: String)
    requires
        name@ == file_name_spec(path@),
    ensures
        r@ == expand_arg_spec(arg@, path@),
{
    let n = arg.unicode_len();
    let mut out = String::new();
    let mut i: usize = 0;
    proof {
        reveal_strlit("$filepath");
        reveal_strlit("$filename");
        assert(arg@.skip(0) =~= arg@);
        assert(Seq::<char>::empty() + expand_arg_spec(arg@, path@) =~= expand_arg_spec(
            arg@,
            path@,
        ));
    }
    while i < n
        invariant
            n == arg@.len(),
            0 <= i <= n,
            name@ == file_name_spec(path@),
            "$filepath"@.len() == 9,
            "$filename"@.len() == 9,
            expand_arg_spec(arg@, path@) == out@ + expand_arg_spec(arg@.skip(i as int), path@),
        decreases n - i,
    {
        let ghost suffix = arg@.skip(i as int);
        if token_at(arg, i, "$filepath") {
            proof {
                assert(suffix.subrange(0, 9) =~= arg@.subrange(i as int, i + 9));
                assert(suffix.skip(9) =~= arg@.skip(i + 9));
                assert(expand_arg_spec(suffix, path@) == path@ + expand_arg_spec(
                    arg@.skip(i + 9),
                    path@,
                ));
            }
            let ghost pre_out = out@;
            out.append(path);
            proof {
                let e = expand_arg_spec(arg@.skip(i + 9), path@);
                assert(pre_out + (path@ + e) =~= (pre_out + path@) + e);
            }
            i += 9;
        } else if token_at(arg, i, "$filename") {
            proof {
                assert(suffix.subrange(0, 9) =~= arg@.subrange(i as int, i + 9));
                assert(suffix.skip(9) =~= arg@.skip(i + 9));
                assert(expand_arg_spec(suffix, path@) == name@ + expand_arg_spec(
                    arg@.skip(i + 9),
                    path@,
                ));
            }
            let ghost pre_out = out@;
            out.append(name);
            proof {
                let e = expand_arg_spec(arg@.skip(i + 9), path@);
                assert(pre_out + (name@ + e) =~= (pre_out + name@) + e);
            }
            i += 9;
        } else {
            proof {
                assert(suffix.len() < 9 || suffix.subrange(0, 9) != "$filepath"@) by {
                    if suffix.len() >= 9 {
                        assert(suffix.subrange(0, 9) =~= arg@.subrange(i as int, i + 9));
                    }
                }
                assert(suffix.len() < 9 || suffix.subrange(0, 9) != "$filename"@) by {
                    if suffix.len() >= 9 {
                        assert(suffix.subrange(0, 9) =~= arg@.subrange(i as int, i + 9));
                    }
                }
                assert(suffix.drop_first() =~= arg@.skip(i + 1));
                assert(arg@.subrange(i as int, i + 1) =~= seq![suffix[0]]);
                assert(expand_arg_spec(suffix, path@) == seq![suffix[0]] + expand_arg_spec(
                    arg@.skip(i + 1),
                    path@,
                ));
            }
            let ghost pre_out = out@;
            let c = arg.substring_char(i, i + 1);
            out.append(c);
            proof {
                let e = expand_arg_spec(arg@.skip(i + 1), path@);
                assert(pre_out + (seq![suffix[0]] + e) =~= (pre_out + seq![suffix[0]]) + e);
            }
            i += 1;
        }
    }
    proof {
        assert(arg@.skip(n as int) =~= Seq::<char>::empty());
        assert(out@ + expand_arg_spec(Seq::<char>::empty(), path@) =~= out@);
    }
    out
}

/// Expands every argument template for the file at `file_path`; the result
/// has one concrete argument per template, with every placeholder occurrence
/// substituted and all other text unchanged.
pub fn expand_args(args: &Vec<String>, file_path: &str) -> (r: Vec<String>)
    ensures
        r@.len() == args@.len(),
        forall|i: int| 0 <= i < args@.len() ==> r@[i]@ == expand_arg_spec(args@[i]@, file_path@),
{
    let name = file_name_of(file_path);
    let mut out: Vec<String> = Vec::new();
    let n = args.len();
    let mut i: usize = 0;
    while i < n
        invariant
            n == args@.len(),
            0 <= i <= n,
            name@ == file_name_spec(file_path@),
            out@.len() == i,
            forall|k: int| 0 <= k < i ==> out@[k]@ == expand_arg_spec(args@[k]@, file_path@),
        decreases n - i,
    {
        out.push(expand_arg(args[i].as_str(), file_path, name.as_str()));
        i += 1;
    }
    out
}

/// Law: an argument in which neither placeholder occurs anywhere passes
/// through expansion unchanged.
pub proof fn lemma_literal_arg_unchanged(arg: Seq<char>, path: Seq<char>)
    requires
        forall|i: int| 0 <= i <= arg.len() - 9 ==> #[trigger] arg.subrange(i, i + 9) != "$filepath"@,
        forall|i: int| 0 <= i <= arg.len() - 9 ==> #[trigger] arg.subrange(i, i + 9) != "$filename"@,
    ensures
        expand_arg_spec(arg, path) == arg,
    decreases arg.len(),
{
    if arg.len() == 0 {
    } else {
        if arg.len() >= 9 {
            let j: int = 0;
            assert(arg.subrange(j, j + 9) != "$filepath"@);
            assert(arg.subrange(j, j + 9) != "$filename"@);
            assert(arg.subrange(0, 9) == arg.subrange(j, j + 9));
        }
        let rest = arg.drop_first();
        assert forall|i: int| 0 <= i <= rest.len() - 9 implies #[trigger] rest.subrange(i, i + 9)
            != "$filepath"@ by {
            let j = i + 1;
            assert(arg.subrange(j, j + 9) != "$filepath"@);
            assert(rest.subrange(i, i + 9) =~= arg.subrange(j, j + 9));
        }
        assert forall|i: int| 0 <= i <= rest.len() - 9 implies #[trigger] rest.subrange(i, i + 9)
            != "$filename"@ by {
            let j = i + 1;
            assert(arg.subrange(j, j + 9) != "$filename"@);
            assert(rest.subrange(i, i + 9) =~= arg.subrange(j, j + 9));
        }
        lemma_literal_arg_unchanged(rest, path);
        assert(seq![arg[0]] + rest =~= arg);
    }
}

} // verus!
