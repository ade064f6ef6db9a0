use vstd::prelude::*;

use crate::errors::RunError;

verus! {

/// The fixed file name the assembled source is written under inside the
/// scratch directory.
pub open spec fn source_file_name() -> Seq<char> {
    "code.c"@
}

/// The external compiler invoked on the scratch file.
pub open spec fn compiler_name() -> Seq<char> {
    "gcc"@
}

/// The compiler's conventional output binary name on the given platform
/// family.
pub open spec fn binary_name(windows: bool) -> Seq<char> {
    if windows {
        "a.exe"@
    } else {
        "a.out"@
    }
}

/// The names one compile-and-run cycle works with: the scratch file the
/// assembled source goes to, the compiler to invoke on it, and the binary
/// the compiler leaves behind.
pub struct CompilePlan {
    pub source_file: String,
    pub compiler: String,
    pub binary: String,
}

/// True when the plan carries exactly the conventional names for the given
/// platform family.
pub open spec fn plan_ok(p: CompilePlan, windows: bool) -> bool {
    p.source_file@ == source_file_name() && p.compiler@ == compiler_name() && p.binary@
        == binary_name(windows)
}

/// Fixes the plan for one compile-and-run cycle.
pub fn compile_plan(windows: bool) -> (p: CompilePlan)
    ensures
        plan_ok(p, windows),
{
    CompilePlan {
        source_file: String::from_str("code.c"),
        compiler: String::from_str("gcc"),
        binary: if windows {
            String::from_str("a.exe")
        } else {
            String::from_str("a.out")
        },
    }
}

/// Decides what follows the compiler's exit status: only a successful
/// compilation may go on to execute the output binary; a failed one earns
/// the compile error, and nothing is executed.
pub fn check_compile(success: bool) -> (r: Result<(), RunError>)
    ensures
        r is Ok <==> success,
        !success ==> r == Err::<(), RunError>(RunError::Compile),
{
    if success {
        Ok(())
    } else {
        Err(RunError::Compile)
    }
}

} // verus!
