//! Launch strategies: one way each to start the worker process.

use vstd::prelude::*;
use vstd::string::StringExecFns;

verus! {

/// What a strategy starts.
#[derive(Clone, Debug)]
pub enum Program {
    /// A companion binary that the host's packaging resolves by name.
    Sidecar { name: String },
    /// An executable at a path, absolute or relative to the working directory.
    Path { path: String },
}

/// One way to start the worker: a program, its fixed arguments and an
/// optional working directory.
#[derive(Clone, Debug)]
pub struct LaunchStrategy {
    pub program: Program,
    pub args: Vec<String>,
    pub working_dir: Option<String>,
}

/// The flag that every strategy hands the worker so that it opens no
/// browser of its own.
pub open spec fn headless_flag() -> Seq<char> {
    "--no-browser"@
}

pub open spec fn strings_view(v: Seq<String>) -> Seq<Seq<char>> {
    v.map_values(|s: String| s@)
}

/// How a program is named in the log.
pub open spec fn program_text(p: Program) -> Seq<char> {
    match p {
        Program::Sidecar { name } => "sidecar "@ + name@,
        Program::Path { path } => path@,
    }
}

impl LaunchStrategy {
    pub open spec fn args_view(&self) -> Seq<Seq<char>> {
        strings_view(self.args@)
    }

    /// A strategy that runs `program` with `leading` followed by the headless
    /// flag, in the host's working directory.
    pub fn new(program: Program, leading: Vec<String>) -> (r: LaunchStrategy)
        ensures
            r.program == program,
            r.args_view() == strings_view(leading@).push(headless_flag()),
            r.working_dir is None,
    {
        let mut args = leading;
        args.push(String::from_str("--no-browser"));
        proof {
            assert(strings_view(args@) =~= strings_view(leading@).push(headless_flag()));
        }
        LaunchStrategy { program, args, working_dir: None }
    }

    /// The same strategy, run in `dir`.
    pub fn with_working_dir(self, dir: String) -> (r: LaunchStrategy)
        ensures
            r.program == self.program,
            r.args == self.args,
            r.working_dir == Some(dir),
    {
        LaunchStrategy { working_dir: Some(dir), ..self }
    }

    /// Describes the strategy's program for the log.
    pub fn describe(&self) -> (r: String)
        ensures
            r@ == program_text(self.program),
    {
        match &self.program {
            Program::Sidecar { name } => {
                let mut r = String::from_str("sidecar ");
                r.append(name.as_str());
                r
            },
            Program::Path { path } => path.clone(),
        }
    }
}

fn path_strategy(path: &str) -> (r: LaunchStrategy)
    ensures
        r.program is Path,
        r.program->Path_path@ == path@,
        r.args_view() == seq![headless_flag()],
        r.working_dir is None,
{
    let r = LaunchStrategy::new(Program::Path { path: String::from_str(path) }, Vec::new());
    proof {
        assert(strings_view(Seq::<String>::empty()) =~= Seq::<Seq<char>>::empty());
        assert(r.args_view() =~= seq![headless_flag()]);
    }
    r
}

/// The program of each default strategy, in the order they are tried.
pub open spec fn default_programs() -> Seq<Seq<char>> {
    seq![
        "sidecar desktop_main"@,
        "desktop_main.exe"@,
        "../dist/desktop_main.exe"@,
        "dist/desktop_main.exe"@,
        "../desktop_main.exe"@,
        "..\\.venv\\Scripts\\python.exe"@,
    ]
}

/// The strategies a packaged host tries: the packaged companion binary first,
/// then local build outputs, and last the interpreter of a virtual environment
/// run on the worker's entry script.
pub fn default_strategies() -> (r: Vec<LaunchStrategy>)
    ensures
        r@.len() == default_programs().len(),
        forall|i: int| 0 <= i < r@.len() ==> #[trigger] program_text(r@[i].program) == default_programs()[i],
        forall|i: int| 0 <= i < r@.len() ==> (#[trigger] r@[i]).working_dir is None,
        r@[0].program is Sidecar,
        forall|i: int| 0 < i < r@.len() ==> (#[trigger] r@[i]).program is Path,
        forall|i: int| 0 <= i < r@.len() - 1 ==> #[trigger] r@[i].args_view() == seq![headless_flag()],
        r@[r@.len() - 1].args_view() == seq!["main.py"@, headless_flag()],
{
    let mut r: Vec<LaunchStrategy> = Vec::new();
    let sidecar = LaunchStrategy::new(
        Program::Sidecar { name: String::from_str("desktop_main") },
        Vec::new(),
    );
    proof {
        reveal_strlit("sidecar ");
        reveal_strlit("desktop_main");
        reveal_strlit("sidecar desktop_main");
        assert(program_text(sidecar.program) =~= "sidecar desktop_main"@);
        assert(strings_view(Seq::<String>::empty()) =~= Seq::<Seq<char>>::empty());
        assert(sidecar.args_view() =~= seq![headless_flag()]);
    }
    r.push(sidecar);
    r.push(path_strategy("desktop_main.exe"));
    r.push(path_strategy("../dist/desktop_main.exe"));
    r.push(path_strategy("dist/desktop_main.exe"));
    r.push(path_strategy("../desktop_main.exe"));
    let mut lead: Vec<String> = Vec::new();
    lead.push(String::from_str("main.py"));
    let venv = LaunchStrategy::new(
        Program::Path { path: String::from_str("..\\.venv\\Scripts\\python.exe") },
        lead,
    );
    proof {
        assert(strings_view(lead@) =~= seq!["main.py"@]);
        assert(venv.args_view() =~= seq!["main.py"@, headless_flag()]);
    }
    r.push(venv);
    r
}

} // verus!
