//! Cloud-Init NoCloud seed: metadata text and the ISO tool's command line.
use vstd::prelude::*;

use crate::text::{chars_of, extend_str, string_of, string_views};

verus! {

/// Configuration for Cloud-Init NoCloud metadata.
#[derive(Debug, Clone)]
pub struct CloudInitConfig {
    /// Instance ID for the virtual machine.
    pub instance_id: String,
    /// Hostname for the virtual machine.
    pub hostname: String,
    /// YAML cloud-config formatted user-data.
    pub user_data: String,
}

/// Builder for compiling Cloud-Init configs into a seed.iso.
pub struct CloudInitIsoBuilder {
    /// Config specification.
    pub config: CloudInitConfig,
}

/// The `meta-data` file of a NoCloud seed.
pub open spec fn spec_meta_data(instance_id: Seq<char>, hostname: Seq<char>) -> Seq<char> {
    "instance-id: "@ + instance_id + "\nlocal-hostname: "@ + hostname + "\n"@
}

/// The tool that compiles the seed: `xorriso` in its mkisofs mode, else `mkisofs`, else
/// none (a placeholder ISO is written).
pub open spec fn spec_iso_command(
    has_xorriso: bool,
    has_mkisofs: bool,
    iso_path: Seq<char>,
    input_dir: Seq<char>,
) -> Option<(Seq<char>, Seq<Seq<char>>)> {
    let tail = seq!["-R"@, "-V"@, "config-2"@, "-o"@, iso_path, input_dir];
    if has_xorriso {
        Some(("xorriso"@, seq!["-as"@, "mkisofs"@] + tail))
    } else if has_mkisofs {
        Some(("mkisofs"@, tail))
    } else {
        None
    }
}

fn push_str(v: &mut Vec<String>, s: &str)
    ensures
        string_views(final(v)@) == string_views(old(v)@).push(s@),
{
    let ghost before = v@;
    v.push(s.to_owned());
    proof {
        assert(string_views(v@) =~= string_views(before).push(s@));
    }
}

impl CloudInitIsoBuilder {
    /// Creates a new `CloudInitIsoBuilder`.
    pub fn new(config: CloudInitConfig) -> (b: Self)
        ensures
            b.config == config,
    {
        CloudInitIsoBuilder { config }
    }

    /// The `meta-data` file: instance ID and local hostname.
    pub fn meta_data(&self) -> (m: String)
        ensures
            m@ == spec_meta_data(self.config.instance_id@, self.config.hostname@),
    {
        let mut v = chars_of("instance-id: ");
        extend_str(&mut v, self.config.instance_id.as_str());
        extend_str(&mut v, "\nlocal-hostname: ");
        extend_str(&mut v, self.config.hostname.as_str());
        extend_str(&mut v, "\n");
        string_of(&v)
    }

    /// The program and arguments that compile `input_dir` into `iso_path`, given which ISO
    /// tools are installed; `None` when neither is.
    pub fn iso_command(
        &self,
        has_xorriso: bool,
        has_mkisofs: bool,
        iso_path: &str,
        input_dir: &str,
    ) -> (r: Option<(String, Vec<String>)>)
        ensures
            match (r, spec_iso_command(has_xorriso, has_mkisofs, iso_path@, input_dir@)) {
                (None, None) => true,
                (Some((p, a)), Some((sp, sa))) => p@ == sp && string_views(a@) == sa,
                _ => false,
            },
    {
        if !has_xorriso && !has_mkisofs {
            return None;
        }
        let mut args: Vec<String> = Vec::new();
        if has_xorriso {
            push_str(&mut args, "-as");
            push_str(&mut args, "mkisofs");
        }
        push_str(&mut args, "-R");
        push_str(&mut args, "-V");
        push_str(&mut args, "config-2");
        push_str(&mut args, "-o");
        push_str(&mut args, iso_path);
        push_str(&mut args, input_dir);
        let program = if has_xorriso {
            String::from_str("xorriso")
        } else {
            String::from_str("mkisofs")
        };
        proof {
            let tail = seq!["-R"@, "-V"@, "config-2"@, "-o"@, iso_path@, input_dir@];
            if has_xorriso {
                assert(string_views(args@) =~= seq!["-as"@, "mkisofs"@] + tail);
            } else {
                assert(string_views(args@) =~= tail);
            }
        }
        Some((program, args))
    }
}

/// The error for an ISO tool that exited with failure.
pub fn iso_failure(stderr: &str) -> (e: String)
    ensures
        e@ == "ISO compilation failed: "@ + stderr@,
{
    crate::text::concat2("ISO compilation failed: ", stderr)
}

/// Whichever tool compiles the seed, the ISO is written to `iso_path` (the argument after
/// `-o`), the input directory is the last argument, the volume is labelled `config-2` with
/// Rock Ridge names, and `mkisofs` gets exactly the arguments that `xorriso` passes on
/// after `-as mkisofs`. No tool is used only when neither is installed.
pub proof fn lemma_iso_command(
    has_xorriso: bool,
    has_mkisofs: bool,
    iso_path: Seq<char>,
    input_dir: Seq<char>,
)
    ensures
        spec_iso_command(has_xorriso, has_mkisofs, iso_path, input_dir) is None <==> (!has_xorriso
            && !has_mkisofs),
        spec_iso_command(has_xorriso, has_mkisofs, iso_path, input_dir) matches Some((p, a)) ==> {
            let n = a.len() as int;
            &&& n >= 6
            &&& a[n - 3] == "-o"@
            &&& a[n - 2] == iso_path
            &&& a[n - 1] == input_dir
            &&& a[n - 6] == "-R"@
            &&& a[n - 5] == "-V"@
            &&& a[n - 4] == "config-2"@
            &&& (p == "xorriso"@ <==> has_xorriso)
            &&& (p == "mkisofs"@ <==> !has_xorriso)
        },
        ({
            let x = spec_iso_command(true, has_mkisofs, iso_path, input_dir)->Some_0.1;
            let m = spec_iso_command(false, true, iso_path, input_dir)->Some_0.1;
            &&& x.len() == m.len() + 2
            &&& x[0] == "-as"@
            &&& x[1] == "mkisofs"@
            &&& x.skip(2) == m
        }),
{
    reveal_strlit("xorriso");
    reveal_strlit("mkisofs");
    assert("xorriso"@[0] != "mkisofs"@[0]);
    let tail = seq!["-R"@, "-V"@, "config-2"@, "-o"@, iso_path, input_dir];
    assert((seq!["-as"@, "mkisofs"@] + tail).skip(2) =~= tail);
}

/// The metadata names the instance ID on its first line and the hostname on its second,
/// each after its key, and ends with a newline.
pub proof fn lemma_meta_data(instance_id: Seq<char>, hostname: Seq<char>)
    ensures
        ({
            let m = spec_meta_data(instance_id, hostname);
            let i = instance_id.len() as int;
            let h = hostname.len() as int;
            &&& m.len() == 31 + i + h
            &&& m.take(13) == "instance-id: "@
            &&& m.subrange(13, 13 + i) == instance_id
            &&& m.subrange(13 + i, 30 + i) == "\nlocal-hostname: "@
            &&& m.subrange(30 + i, 30 + i + h) == hostname
            &&& m.last() == '\n'
        }),
{
    reveal_strlit("instance-id: ");
    reveal_strlit("\nlocal-hostname: ");
    reveal_strlit("\n");
    let m = spec_meta_data(instance_id, hostname);
    let i = instance_id.len() as int;
    let h = hostname.len() as int;
    assert(m.take(13) =~= "instance-id: "@);
    assert(m.subrange(13, 13 + i) =~= instance_id);
    assert(m.subrange(13 + i, 30 + i) =~= "\nlocal-hostname: "@);
    assert(m.subrange(30 + i, 30 + i + h) =~= hostname);
}

} // verus!
