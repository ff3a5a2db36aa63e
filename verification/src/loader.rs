//! The loaders of the environment adapters: the transient files that bring a
//! module into a JavaScript runtime, and the command line that runs them.
//!
//! Nothing here touches the file system or starts a process. The functions
//! say what is to be written and run; the caller writes and runs it.

use crate::model::EnvironmentTarget;
use crate::text::{names_view, split_nonempty, split_tokens};
use vstd::prelude::*;
use vstd::string::*;

verus! {

/// The CommonJS loader up to the name of the module.
pub const COMMON_JS_HEAD: &'static str = r#"
const { exit } = require('node:process');
const wasm = require('./"#;

/// The CommonJS loader from the name of the module on.
pub const COMMON_JS_TAIL: &'static str = r#".js');

// For Node.js CommonJS, wasm-bindgen exports __wasm containing the wasm exports
// The module is already initialized synchronously
try {
    if (typeof wasm.__wasm.main === 'function') {
        wasm.__wasm.main();
    } else {
        throw new Error('No main function found in doctest wasm module');
    }
    console.log('test result: ok. 1 passed; 0 failed');
    exit(0);
} catch (e) {
    console.error('Doctest failed:', e);
    console.log('test result: FAILED. 0 passed; 1 failed');
    exit(1);
}
"#;

/// The ES module loader up to the name of the module.
pub const ES_MODULE_HEAD: &'static str = r#"
import { exit } from 'node:process';
import * as wasm from './"#;

/// The ES module loader from the name of the module on.
pub const ES_MODULE_TAIL: &'static str = r#".js';

// For Node.js ES modules, wasm-bindgen exports __wasm containing the wasm exports
// The module is already initialized when imported
try {
    if (typeof wasm.__wasm.main === 'function') {
        wasm.__wasm.main();
    } else {
        throw new Error('No main function found in doctest wasm module');
    }
    console.log('test result: ok. 1 passed; 0 failed');
    exit(0);
} catch (e) {
    console.error('Doctest failed:', e);
    console.log('test result: FAILED. 0 passed; 1 failed');
    exit(1);
}
"#;

/// The loader for the alternate runtime up to the name of the module.
pub const ALTERNATE_HEAD: &'static str = r#"import * as wasm from "./"#;

/// The loader for the alternate runtime from the name of the module on.
pub const ALTERNATE_TAIL: &'static str = r#".js";

try {
    if (typeof wasm.__wasm.main === 'function') {
        wasm.__wasm.main();
    } else {
        throw new Error('No main function found in doctest wasm module');
    }
    console.log("test result: ok. 1 passed; 0 failed");
} catch (e) {
    console.error("Doctest failed:", e);
    console.log("test result: FAILED. 0 passed; 1 failed");
    Deno.exit(1);
}
"#;

/// The loader that runs a raw module without its bindings. It instantiates
/// the module with a stub for every import, reports a stub that is called as
/// an unsupported call, and says on both outcomes that it ran without the
/// bindings.
pub const FALLBACK_SCRIPT: &'static str = r#"
const { exit } = require('node:process');
const { readFileSync } = require('node:fs');
const { join } = require('node:path');

// Stub imports for wasm-bindgen functions that may be imported but not called
const stubImports = {
    __wbindgen_placeholder__: new Proxy({}, {
        get: (target, prop) => {
            // Return a stub function for any requested import
            return (...args) => {
                // __wbindgen_describe is called at build time, not runtime - no-op
                if (prop === '__wbindgen_describe') return;
                // For other functions, if they're actually called at runtime,
                // the test should fail
                throw new Error(`wasm-bindgen stub called: ${prop}. This doctest requires wasm-bindgen-test support.`);
            };
        }
    }),
    __wbindgen_externref_xform__: new Proxy({}, {
        get: (target, prop) => {
            return (...args) => {
                throw new Error(`externref stub called: ${prop}. This doctest requires wasm-bindgen-test support.`);
            };
        }
    }),
    // Provide a minimal env if needed
    env: {}
};

async function run() {
    try {
        const wasmPath = join(__dirname, 'doctest.wasm');
        const wasmBytes = readFileSync(wasmPath);
        const wasmModule = await WebAssembly.compile(wasmBytes);

        // Get the imports the module needs
        const moduleImports = WebAssembly.Module.imports(wasmModule);

        // Build import object with stubs for all required imports
        const imports = {};
        for (const imp of moduleImports) {
            if (!imports[imp.module]) {
                imports[imp.module] = stubImports[imp.module] || {};
            }
        }

        const instance = await WebAssembly.instantiate(wasmModule, imports);

        if (typeof instance.exports.main !== 'function') {
            throw new Error('No main function found in doctest wasm module');
        }

        instance.exports.main();

        console.log('test result: ok. 1 passed; 0 failed');
        console.log('');
        console.log('note: This doctest ran in fallback mode without wasm-bindgen.');
        console.log('      Console output from the test was not captured.');
        exit(0);
    } catch (e) {
        console.error('Doctest failed:', e.message || e);
        console.log('test result: FAILED. 0 passed; 1 failed');
        console.log('');
        console.log('note: This doctest ran in fallback mode without wasm-bindgen.');
        console.log('      For better error messages, add wasm_bindgen_test imports.');
        exit(1);
    }
}

run();
"#;

/// The manifest that makes Node treat `.js` files beside it as ES modules.
pub const MODULE_MANIFEST: &'static str = r#"{"type": "module"}"#;

/// The name under which the fallback loader looks for the copy of the raw
/// module, in its own directory.
pub const FALLBACK_MODULE_NAME: &'static str = "doctest.wasm";

/// A file that an adapter writes into its scratch directory before it runs
/// the module.
#[derive(Clone, Debug, PartialEq, Eq)]
pub struct GeneratedFile {
    pub name: String,
    pub contents: String,
}

/// A generated file as a mathematical value.
pub ghost struct GeneratedFileView {
    pub name: Seq<char>,
    pub contents: Seq<char>,
}

impl View for GeneratedFile {
    type V = GeneratedFileView;

    open spec fn view(&self) -> GeneratedFileView {
        GeneratedFileView { name: self.name@, contents: self.contents@ }
    }
}

/// The files as mathematical values.
pub open spec fn files_view(files: Seq<GeneratedFile>) -> Seq<GeneratedFileView> {
    files.map_values(|f: GeneratedFile| f@)
}

/// A command line without its last argument.
#[derive(Clone, Debug, PartialEq, Eq)]
pub struct Invocation {
    pub program: String,
    /// The arguments that stand before the path of the loader script.
    pub arguments: Vec<String>,
}

/// The loader script that brings `module` into `target`; none for a browser,
/// where the harness page loads the module.
pub open spec fn loader_text(target: EnvironmentTarget, module: Seq<char>) -> Option<Seq<char>> {
    match target {
        EnvironmentTarget::NodeCommonJS => Some(COMMON_JS_HEAD@ + module + COMMON_JS_TAIL@),
        EnvironmentTarget::NodeESModule => Some(ES_MODULE_HEAD@ + module + ES_MODULE_TAIL@),
        EnvironmentTarget::AlternateRuntime => Some(ALTERNATE_HEAD@ + module + ALTERNATE_TAIL@),
        _ => None,
    }
}

/// The file name of the loader script, whose extension tells the runtime the
/// module format.
pub open spec fn loader_name(target: EnvironmentTarget) -> Option<Seq<char>> {
    match target {
        EnvironmentTarget::NodeCommonJS => Some("run.cjs"@),
        EnvironmentTarget::NodeESModule => Some("run.mjs"@),
        EnvironmentTarget::AlternateRuntime => Some("run.js"@),
        _ => None,
    }
}

/// The files that the adapter of `target` writes before it runs `module`:
/// the loader script, which comes last, and before it, for Node with ES
/// modules, the manifest that declares the module type.
pub open spec fn transient_files(target: EnvironmentTarget, module: Seq<char>) -> Seq<
    GeneratedFileView,
> {
    match target {
        EnvironmentTarget::NodeESModule => seq![
            GeneratedFileView { name: "package.json"@, contents: MODULE_MANIFEST@ },
            GeneratedFileView {
                name: loader_name(target).unwrap(),
                contents: loader_text(target, module).unwrap(),
            },
        ],
        EnvironmentTarget::NodeCommonJS | EnvironmentTarget::AlternateRuntime => seq![
            GeneratedFileView {
                name: loader_name(target).unwrap(),
                contents: loader_text(target, module).unwrap(),
            },
        ],
        _ => Seq::empty(),
    }
}

/// The program that runs the loader of `target`, if it has one.
pub open spec fn program_name(target: EnvironmentTarget) -> Option<Seq<char>> {
    match target {
        EnvironmentTarget::NodeCommonJS | EnvironmentTarget::NodeESModule => Some("node"@),
        EnvironmentTarget::AlternateRuntime => Some("deno"@),
        _ => None,
    }
}

/// The arguments that stand before the path of the loader script on the
/// command line. For Node these are the extra flags, which `extra` lists
/// with commas between them and which are handed on as they are. The
/// alternate runtime is told to run the script with read access, and takes
/// no extra flags.
pub open spec fn leading_arguments(target: EnvironmentTarget, extra: Seq<char>) -> Seq<Seq<char>> {
    match target {
        EnvironmentTarget::AlternateRuntime => seq!["run"@, "--allow-read"@],
        _ => split_tokens(extra, ','),
    }
}

/// The text that begins with `head`, goes on with `module` and ends with
/// `tail`.
fn compose(head: &str, module: &str, tail: &str) -> (text: String)
    ensures
        text@ == head@ + module@ + tail@,
{
    let mut text = String::new();
    text.append(head);
    text.append(module);
    text.append(tail);
    assert(text@ =~= head@ + module@ + tail@);
    text
}

/// The text of `s` as an owned string.
fn owned(s: &str) -> (text: String)
    ensures
        text@ == s@,
{
    let mut text = String::new();
    text.append(s);
    assert(text@ =~= s@);
    text
}

/// The loader script that brings `module` into `target` and calls its entry
/// point `main`; `None` for a browser.
pub fn loader_script(target: EnvironmentTarget, module: &str) -> (script: Option<String>)
    ensures
        match script {
            Some(text) => loader_text(target, module@) == Some(text@),
            None => loader_text(target, module@) is None,
        },
{
    match target {
        EnvironmentTarget::NodeCommonJS => Some(compose(COMMON_JS_HEAD, module, COMMON_JS_TAIL)),
        EnvironmentTarget::NodeESModule => Some(compose(ES_MODULE_HEAD, module, ES_MODULE_TAIL)),
        EnvironmentTarget::AlternateRuntime => Some(
            compose(ALTERNATE_HEAD, module, ALTERNATE_TAIL),
        ),
        _ => None,
    }
}

/// The files that the adapter of `target` writes into its scratch directory
/// before it runs `module`, in the order in which it writes them. The loader
/// script is the last of them; a browser needs none.
pub fn generated_files(target: EnvironmentTarget, module: &str) -> (files: Vec<GeneratedFile>)
    ensures
        files_view(files@) == transient_files(target, module@),
{
    let mut files: Vec<GeneratedFile> = Vec::new();
    match target {
        EnvironmentTarget::NodeCommonJS => {
            files.push(
                GeneratedFile {
                    name: owned("run.cjs"),
                    contents: compose(COMMON_JS_HEAD, module, COMMON_JS_TAIL),
                },
            );
        },
        EnvironmentTarget::NodeESModule => {
            files.push(
                GeneratedFile { name: owned("package.json"), contents: owned(MODULE_MANIFEST) },
            );
            files.push(
                GeneratedFile {
                    name: owned("run.mjs"),
                    contents: compose(ES_MODULE_HEAD, module, ES_MODULE_TAIL),
                },
            );
        },
        EnvironmentTarget::AlternateRuntime => {
            files.push(
                GeneratedFile {
                    name: owned("run.js"),
                    contents: compose(ALTERNATE_HEAD, module, ALTERNATE_TAIL),
                },
            );
        },
        _ => {},
    }
    assert(files_view(files@) =~= transient_files(target, module@));
    files
}

/// The one file that the fallback adapter writes beside the copy of the raw
/// module: its loader, as a CommonJS script.
pub fn fallback_files() -> (files: Vec<GeneratedFile>)
    ensures
        files_view(files@) == seq![
            GeneratedFileView { name: "run.cjs"@, contents: FALLBACK_SCRIPT@ },
        ],
{
    let mut files: Vec<GeneratedFile> = Vec::new();
    files.push(GeneratedFile { name: owned("run.cjs"), contents: owned(FALLBACK_SCRIPT) });
    assert(files_view(files@) =~= seq![
        GeneratedFileView { name: "run.cjs"@, contents: FALLBACK_SCRIPT@ },
    ]);
    files
}

/// The extra interpreter flags that `raw` lists: its pieces between commas,
/// as they are, without the empty ones.
pub fn extra_arguments(raw: &str) -> (arguments: Vec<String>)
    ensures
        names_view(arguments@) == split_tokens(raw@, ','),
        forall|i: int|
            0 <= i < arguments.len() ==> (#[trigger] arguments@[i])@.len() > 0
                && !arguments@[i]@.contains(','),
{
    split_nonempty(raw, ',')
}

/// The command line that runs a loader script in `target`, up to the path
/// of the script, which the caller puts last; `None` for a browser, which is
/// driven through its automation session.
pub fn invocation(target: EnvironmentTarget, extra: &str) -> (command: Option<Invocation>)
    ensures
        match command {
            Some(c) => {
                &&& program_name(target) == Some(c.program@)
                &&& names_view(c.arguments@) == leading_arguments(target, extra@)
            },
            None => program_name(target) is None,
        },
{
    match target {
        EnvironmentTarget::NodeCommonJS | EnvironmentTarget::NodeESModule => {
            Some(Invocation { program: owned("node"), arguments: extra_arguments(extra) })
        },
        EnvironmentTarget::AlternateRuntime => {
            let mut arguments: Vec<String> = Vec::new();
            arguments.push(owned("run"));
            arguments.push(owned("--allow-read"));
            assert(names_view(arguments@) =~= seq!["run"@, "--allow-read"@]);
            Some(Invocation { program: owned("deno"), arguments })
        },
        _ => None,
    }
}

/// The module search path of the subprocess: the entries that are already
/// set, then the working directory, then the scratch directory, so that the
/// loader resolves the module from either.
pub fn search_path<P>(existing: Vec<P>, working_dir: P, scratch_dir: P) -> (path: Vec<P>)
    ensures
        path@ == existing@.push(working_dir).push(scratch_dir),
{
    let mut path = existing;
    path.push(working_dir);
    path.push(scratch_dir);
    path
}

} // verus!
