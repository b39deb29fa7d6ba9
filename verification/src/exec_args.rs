//! Construction of the argv/envp vectors handed to `execve`.
//!
//! The values built here are plain byte strings; turning them into
//! NUL-terminated C strings and raw pointer arrays is the job of the
//! process that performs the `execve`.  Everything that can fail — an
//! interior NUL in an argument — is rejected here, before any process or
//! cgroup is created.

use vstd::prelude::*;

use crate::error::Error;
use crate::text::{str_bytes, str_to_bytes};

verus! {

/// The byte sequence holds a NUL.
pub open spec fn has_nul(b: Seq<u8>) -> bool {
    exists|i: int| 0 <= i < b.len() && b[i] == 0
}

/// `p` is the position of the first NUL of the byte sequence.
pub open spec fn is_first_nul(b: Seq<u8>, p: int) -> bool {
    &&& 0 <= p < b.len()
    &&& b[p] == 0
    &&& forall|q: int| 0 <= q < p ==> b[q] != 0
}

/// The three environment entries every sandboxed program receives.
pub open spec fn spec_env_entries() -> Seq<Seq<u8>> {
    seq![
        str_bytes("PATH=/root/.cargo/bin:/usr/local/sbin:/usr/local/bin:/usr/sbin:/usr/bin:/sbin:/bin"@),
        str_bytes("HOME=/tmp"@),
        str_bytes("TERM=xterm"@),
    ]
}

/// The argv/envp vectors passed across the `execve` boundary.
///
/// `pathname` duplicates the bytes of the first argument, `argv` holds the
/// bytes of every argument in order, and `envp` holds exactly the three
/// fixed environment entries.
pub struct ExecArgs {
    /// Bytes of the program path, the first argument.
    pub pathname: Vec<u8>,
    /// Bytes of each argument, in order.
    pub argv: Vec<Vec<u8>>,
    /// Bytes of each environment entry.
    pub envp: Vec<Vec<u8>>,
}

/// `e` is what building from `args` yields: the pathname is the first
/// argument's bytes, argv mirrors the arguments, and envp holds the three
/// fixed entries.
pub open spec fn built_from(e: ExecArgs, args: Seq<String>) -> bool {
    &&& args.len() > 0
    &&& e.pathname@ == str_bytes(args[0]@)
    &&& e.argv@.len() == args.len()
    &&& forall|i: int| 0 <= i < args.len() ==> (#[trigger] e.argv@[i])@ == str_bytes(args[i]@)
    &&& e.envp@.len() == 3
    &&& forall|i: int| 0 <= i < 3 ==> (#[trigger] e.envp@[i])@ == spec_env_entries()[i]
}

impl ExecArgs {
    /// Builds the execve vectors from a list of argument strings, the
    /// first of which is the program path.
    ///
    /// Building succeeds exactly when no argument holds an interior NUL;
    /// otherwise it fails with [`Error::InvalidString`] carrying the byte
    /// position of the first NUL of the first offending argument, and
    /// nothing is built.
    #[verifier::loop_isolation(false)]
    pub fn build(args: &Vec<String>) -> (r: Result<ExecArgs, Error>)
        requires
            args@.len() > 0,
        ensures
            r is Ok <==> (forall|i: int|
                0 <= i < args@.len() ==> !has_nul(str_bytes((#[trigger] args@[i])@))),
            r matches Ok(e) ==> built_from(e, args@),
            r matches Err(e) ==> (e matches Error::InvalidString(p) && (exists|i: int|
                {
                    &&& 0 <= i < args@.len()
                    &&& is_first_nul(str_bytes((#[trigger] args@[i])@), p as int)
                    &&& forall|k: int| 0 <= k < i ==> !has_nul(str_bytes(args@[k]@))
                })),
    {
        let n = args.len();
        let mut argv: Vec<Vec<u8>> = Vec::new();
        let mut i: usize = 0;
        while i < n
            invariant
                0 <= i <= n,
                argv@.len() == i,
                forall|j: int|
                    0 <= j < i ==> (#[trigger] argv@[j])@ == str_bytes(args@[j]@) && !has_nul(
                        str_bytes(args@[j]@),
                    ),
            decreases n - i,
        {
            let bytes = str_to_bytes(args[i].as_str());
            let m = bytes.len();
            let mut j: usize = 0;
            while j < m
                invariant
                    0 <= j <= m,
                    m == bytes@.len(),
                    bytes@ == str_bytes(args@[i as int]@),
                    forall|q: int| 0 <= q < j ==> bytes@[q] != 0,
                decreases m - j,
            {
                if bytes[j] == 0 {
                    proof {
                        assert(is_first_nul(str_bytes((args@[i as int])@), j as int));
                        assert forall|k: int| 0 <= k < i implies !has_nul(
                            str_bytes(args@[k]@),
                        ) by {
                            assert((argv@[k])@ == str_bytes(args@[k]@));
                        }
                    }
                    return Err(Error::InvalidString(j));
                }
                j = j + 1;
            }
            proof {
                assert(!has_nul(bytes@));
            }
            argv.push(bytes);
            i = i + 1;
        }
        proof {
            assert forall|ii: int| 0 <= ii < args@.len() implies !has_nul(
                str_bytes((#[trigger] args@[ii])@),
            ) by {
                assert((argv@[ii])@ == str_bytes(args@[ii]@));
            }
        }
        let pathname = str_to_bytes(args[0].as_str());
        let mut envp: Vec<Vec<u8>> = Vec::new();
        envp.push(str_to_bytes(
            "PATH=/root/.cargo/bin:/usr/local/sbin:/usr/local/bin:/usr/sbin:/usr/bin:/sbin:/bin",
        ));
        envp.push(str_to_bytes("HOME=/tmp"));
        envp.push(str_to_bytes("TERM=xterm"));
        let e = ExecArgs { pathname, argv, envp };
        proof {
            assert(built_from(e, args@));
        }
        Ok(e)
    }
}

/// Rebuilding the same arguments twice yields the same vectors: two
/// results built from equal argument lists hold byte-identical pathname,
/// argv and envp contents, in the same order.
pub proof fn lemma_build_deterministic(a: ExecArgs, b: ExecArgs, args: Seq<String>)
    requires
        built_from(a, args),
        built_from(b, args),
    ensures
        a.pathname@ == b.pathname@,
        a.argv@.len() == b.argv@.len(),
        forall|i: int| 0 <= i < a.argv@.len() ==> (#[trigger] a.argv@[i])@ == b.argv@[i]@,
        a.envp@.len() == b.envp@.len(),
        forall|i: int| 0 <= i < a.envp@.len() ==> (#[trigger] a.envp@[i])@ == b.envp@[i]@,
{
}

} // verus!
