use vstd::prelude::*;
use crate::platform::{Platform, spec_pdc_name, pdc_name};
use crate::strutil::concat_str;
use crate::assembler::{join_path, spec_join_path};

verus! {

/// An external command to spawn: the program and its arguments.  Spawning
/// is the caller's business; this type only fixes what is spawned.
#[derive(Debug, Clone, PartialEq, Eq)]
pub struct CommandSpec {
    pub program: String,
    pub args: Vec<String>,
}

/// Mathematical model of `CommandSpec`.
#[verifier::ext_equal]
pub struct CommandSpecView {
    pub program: Seq<char>,
    pub args: Seq<Seq<char>>,
}

impl View for CommandSpec {
    type V = CommandSpecView;

    open spec fn view(&self) -> CommandSpecView {
        CommandSpecView { program: self.program@, args: self.args.deep_view() }
    }
}

/// The flags the cross-compiler gets when compiling the startup shim.
pub open spec fn spec_gcc_compile_flags() -> Seq<Seq<char>> {
    seq![
        "-g3"@,
        "-c"@,
        "-mthumb"@,
        "-mcpu=cortex-m7"@,
        "-mfloat-abi=hard"@,
        "-mfpu=fpv5-sp-d16"@,
        "-D__FPU_USED=1"@,
        "-O2"@,
        "-falign-functions=16"@,
        "-fomit-frame-pointer"@,
        "-gdwarf-2"@,
        "-Wall"@,
        "-Wno-unused"@,
        "-Wstrict-prototypes"@,
        "-Wno-unknown-pragmas"@,
        "-fverbose-asm"@,
        "-Wdouble-promotion"@,
        "-mword-relocations"@,
        "-fno-common"@,
        "-ffunction-sections"@,
        "-fdata-sections"@,
        "-DTARGET_PLAYDATE=1"@,
        "-DTARGET_EXTENSION=1"@,
        "-fno-exceptions"@,
    ]
}

/// The command that compiles the startup shim into `<target dir>/setup.o`.
#[verifier::rlimit(30)]
pub fn compile_setup_command(gcc: &str, c_api_path: &str, target_dir: &str) -> (r: CommandSpec)
    ensures
        r@.program == gcc@,
        r@.args == spec_gcc_compile_flags() + seq![
            c_api_path@ + "/buildsupport/setup.c"@,
            "-I"@,
            c_api_path@,
            "-o"@,
            spec_join_path(target_dir@, "setup.o"@),
        ],
{
    let mut args: Vec<String> = Vec::new();
    args.push("-g3".to_owned());
    args.push("-c".to_owned());
    args.push("-mthumb".to_owned());
    args.push("-mcpu=cortex-m7".to_owned());
    args.push("-mfloat-abi=hard".to_owned());
    args.push("-mfpu=fpv5-sp-d16".to_owned());
    args.push("-D__FPU_USED=1".to_owned());
    args.push("-O2".to_owned());
    args.push("-falign-functions=16".to_owned());
    args.push("-fomit-frame-pointer".to_owned());
    args.push("-gdwarf-2".to_owned());
    args.push("-Wall".to_owned());
    args.push("-Wno-unused".to_owned());
    args.push("-Wstrict-prototypes".to_owned());
    args.push("-Wno-unknown-pragmas".to_owned());
    args.push("-fverbose-asm".to_owned());
    args.push("-Wdouble-promotion".to_owned());
    args.push("-mword-relocations".to_owned());
    args.push("-fno-common".to_owned());
    args.push("-ffunction-sections".to_owned());
    args.push("-fdata-sections".to_owned());
    args.push("-DTARGET_PLAYDATE=1".to_owned());
    args.push("-DTARGET_EXTENSION=1".to_owned());
    args.push("-fno-exceptions".to_owned());
    args.push(crate::pipeline::Build::setup_path(c_api_path));
    args.push("-I".to_owned());
    args.push(c_api_path.to_owned());
    args.push("-o".to_owned());
    args.push(join_path(target_dir, "setup.o"));
    let r = CommandSpec { program: gcc.to_owned(), args };
    proof {
        assert(r@.args =~= spec_gcc_compile_flags() + seq![
            c_api_path@ + "/buildsupport/setup.c"@,
            "-I"@,
            c_api_path@,
            "-o"@,
            spec_join_path(target_dir@, "setup.o"@),
        ]);
    }
    r
}

/// The flags the cross-compiler gets when linking the executable image.
pub open spec fn spec_gcc_link_flags() -> Seq<Seq<char>> {
    seq![
        "-nostartfiles"@,
        "-mthumb"@,
        "-mcpu=cortex-m7"@,
        "-mfloat-abi=hard"@,
        "-mfpu=fpv5-sp-d16"@,
        "-D__FPU_USED=1"@,
        "-Wl,--cref,--gc-sections,--no-warn-mismatch,--emit-relocs"@,
        "-fno-exceptions"@,
    ]
}

/// The command that links the shim object and the static library into
/// `<target dir>/<name>.elf`, entered at the shim's handler.
#[verifier::rlimit(30)]
pub fn link_binary_command(
    gcc: &str,
    c_api_path: &str,
    target_dir: &str,
    example_name: &str,
    lib_path: &str,
) -> (r: CommandSpec)
    ensures
        r@.program == gcc@,
        r@.args == seq![spec_join_path(target_dir@, "setup.o"@), lib_path@]
            + spec_gcc_link_flags() + seq![
            "-T"@,
            c_api_path@ + "/buildsupport/link_map.ld"@,
            "-o"@,
            spec_join_path(target_dir@, example_name@ + ".elf"@),
            "--entry"@,
            "eventHandlerShim"@,
        ],
{
    let mut args: Vec<String> = Vec::new();
    args.push(join_path(target_dir, "setup.o"));
    args.push(lib_path.to_owned());
    args.push("-nostartfiles".to_owned());
    args.push("-mthumb".to_owned());
    args.push("-mcpu=cortex-m7".to_owned());
    args.push("-mfloat-abi=hard".to_owned());
    args.push("-mfpu=fpv5-sp-d16".to_owned());
    args.push("-D__FPU_USED=1".to_owned());
    args.push("-Wl,--cref,--gc-sections,--no-warn-mismatch,--emit-relocs".to_owned());
    args.push("-fno-exceptions".to_owned());
    args.push("-T".to_owned());
    args.push(concat_str(c_api_path, "/buildsupport/link_map.ld"));
    args.push("-o".to_owned());
    let mut elf = example_name.to_owned();
    elf.append(".elf");
    args.push(join_path(target_dir, elf.as_str()));
    args.push("--entry".to_owned());
    args.push("eventHandlerShim".to_owned());
    let r = CommandSpec { program: gcc.to_owned(), args };
    proof {
        assert(r@.args =~= seq![spec_join_path(target_dir@, "setup.o"@), lib_path@]
            + spec_gcc_link_flags() + seq![
            "-T"@,
            c_api_path@ + "/buildsupport/link_map.ld"@,
            "-o"@,
            spec_join_path(target_dir@, example_name@ + ".elf"@),
            "--entry"@,
            "eventHandlerShim"@,
        ]);
    }
    r
}

/// The command that turns the staging directory into the loadable package:
/// the SDK's bundle compiler, stripping, from source to destination.
pub fn pdc_command(sdk_path: &str, platform: Platform, source_dir: &str, dest_dir: &str) -> (r:
    CommandSpec)
    ensures
        r@.program == sdk_path@ + "/bin/"@ + spec_pdc_name(platform),
        r@.args == seq!["--strip"@, source_dir@, dest_dir@],
{
    let mut program = concat_str(sdk_path, "/bin/");
    program.append(pdc_name(platform));
    let mut args: Vec<String> = Vec::new();
    args.push("--strip".to_owned());
    args.push(source_dir.to_owned());
    args.push(dest_dir.to_owned());
    let r = CommandSpec { program, args };
    proof {
        assert(r@.args =~= seq!["--strip"@, source_dir@, dest_dir@]);
    }
    r
}

/// The command that launches the simulator on a bundle.
pub fn simulator_command(platform: Platform, pdx_path: &str) -> (r: CommandSpec)
    ensures
        r@ == match platform {
            Platform::Windows => CommandSpecView {
                program: "PlaydateSimulator.exe"@,
                args: seq![pdx_path@],
            },
            Platform::MacOs => CommandSpecView {
                program: "open"@,
                args: seq!["-a"@, "Playdate Simulator"@, pdx_path@],
            },
            Platform::Linux => CommandSpecView {
                program: "PlaydateSimulator"@,
                args: seq![pdx_path@],
            },
        },
{
    match platform {
        Platform::Windows => {
            let mut args: Vec<String> = Vec::new();
            args.push(pdx_path.to_owned());
            let r = CommandSpec { program: "PlaydateSimulator.exe".to_owned(), args };
            proof {
                assert(r@.args =~= seq![pdx_path@]);
            }
            r
        },
        Platform::MacOs => {
            let mut args: Vec<String> = Vec::new();
            args.push("-a".to_owned());
            args.push("Playdate Simulator".to_owned());
            args.push(pdx_path.to_owned());
            let r = CommandSpec { program: "open".to_owned(), args };
            proof {
                assert(r@.args =~= seq!["-a"@, "Playdate Simulator"@, pdx_path@]);
            }
            r
        },
        Platform::Linux => {
            let mut args: Vec<String> = Vec::new();
            args.push(pdx_path.to_owned());
            let r = CommandSpec { program: "PlaydateSimulator".to_owned(), args };
            proof {
                assert(r@.args =~= seq![pdx_path@]);
            }
            r
        },
    }
}

/// The fallback simulator launch, from the SDK's own tree, tried when the
/// simulator is not on the search path.
pub fn simulator_fallback_command(sdk_path: &str, pdx_path: &str) -> (r: CommandSpec)
    ensures
        r@.program == sdk_path@ + "/bin/PlaydateSimulator"@,
        r@.args == seq![pdx_path@],
{
    let program = concat_str(sdk_path, "/bin/PlaydateSimulator");
    let mut args: Vec<String> = Vec::new();
    args.push(pdx_path.to_owned());
    let r = CommandSpec { program, args };
    proof {
        assert(r@.args =~= seq![pdx_path@]);
    }
    r
}

} // verus!
