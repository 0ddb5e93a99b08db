//! Keys sealed by the TPM. Running the `tpm2-tools` is the caller's part;
//! here are the command lines it runs, how their endings are reported,
//! what an unsealed key must look like, and the failures.
use crate::crypto::keys::Ed25519KeyPair;
use crate::crypto::{crypto_error_message, CryptoError};
use crate::text::take32;
use vstd::prelude::*;

verus! {

/// Failures of TPM key handling.
#[derive(Debug, Clone, PartialEq, Eq)]
pub enum TpmKeyError {
    NotAvailable,
    KeyNotFound,
    InvalidKeyFormat,
    OperationFailed(String),
    /// An I/O failure, with its reason.
    Io(String),
    Crypto(CryptoError),
}

/// The message of a TPM key failure.
pub open spec fn spec_tpm_error_message(e: TpmKeyError) -> Seq<char> {
    match e {
        TpmKeyError::NotAvailable => "TPM not available"@,
        TpmKeyError::KeyNotFound => "Key not found"@,
        TpmKeyError::InvalidKeyFormat => "Invalid key format"@,
        TpmKeyError::OperationFailed(m) => "Operation failed: "@ + m@,
        TpmKeyError::Io(m) => "IO error: "@ + m@,
        TpmKeyError::Crypto(c) => "Crypto error: "@ + crypto_error_message(c)@,
    }
}

impl TpmKeyError {
    /// The failure's message.
    pub fn message(&self) -> (r: String)
        ensures
            r@ == spec_tpm_error_message(*self),
    {
        match self {
            TpmKeyError::NotAvailable => "TPM not available".to_owned(),
            TpmKeyError::KeyNotFound => "Key not found".to_owned(),
            TpmKeyError::InvalidKeyFormat => "Invalid key format".to_owned(),
            TpmKeyError::OperationFailed(e) => {
                let mut m = "Operation failed: ".to_owned();
                m.append(e.as_str());
                m
            },
            TpmKeyError::Io(e) => {
                let mut m = "IO error: ".to_owned();
                m.append(e.as_str());
                m
            },
            TpmKeyError::Crypto(c) => {
                let mut m = "Crypto error: ".to_owned();
                m.append(c.message());
                m
            },
        }
    }
}

/// The key pair of the private key the TPM unsealed: exactly 32 bytes are
/// a signing key; any other length is not a key of ours.
pub fn keypair_from_unsealed(private_bytes: &[u8]) -> (r: Result<Ed25519KeyPair, TpmKeyError>)
    ensures
        private_bytes@.len() == 32 ==> (r matches Ok(kp) && kp.secret() == private_bytes@),
        private_bytes@.len() != 32 ==> r == Err::<Ed25519KeyPair, TpmKeyError>(TpmKeyError::InvalidKeyFormat),
{
    if private_bytes.len() != 32 {
        return Err(TpmKeyError::InvalidKeyFormat);
    }
    let key = take32(private_bytes);
    assert(private_bytes@.take(32) =~= private_bytes@);
    match Ed25519KeyPair::from_signing_key_bytes(&key) {
        Ok(kp) => Ok(kp),
        Err(e) => Err(TpmKeyError::Crypto(e)),
    }
}

/// The persistent handle of the TPM's storage root key, the parent of the
/// sealed objects.
pub const SRK_HANDLE: &'static str = "0x81000001";

/// The text of `path` with its extension replaced by `extension` (or
/// `extension` added when it has none), as `Path::with_extension` forms it;
/// `None` when that path is not UTF-8.
pub uninterp spec fn path_with_extension(path: Seq<char>, extension: Seq<char>) -> Option<Seq<char>>;

/// Whether an extension holds no path separator (`Path::with_extension`
/// panics on one).
pub open spec fn no_separator(extension: Seq<char>) -> bool {
    !extension.contains('/')
}

/// `Path::with_extension` (std) on the path `path`, taken back as text.
#[verifier::external_body]
fn with_extension(path: &str, extension: &str) -> (r: Option<String>)
    requires
        no_separator(extension@),
    ensures
        r is Some <==> path_with_extension(path@, extension@) is Some,
        r matches Some(s) ==> path_with_extension(path@, extension@) == Some(s@),
{
    match std::path::Path::new(path).with_extension(extension).to_str() {
        Some(s) => Some(s.to_owned()),
        None => None,
    }
}

fn with_extension_or_invalid(path: &str, extension: &str) -> (r: Result<String, TpmKeyError>)
    requires
        no_separator(extension@),
    ensures
        match path_with_extension(path@, extension@) {
            Some(p) => r matches Ok(s) && s@ == p,
            None => r == Err::<String, TpmKeyError>(TpmKeyError::InvalidKeyFormat),
        },
{
    match with_extension(path, extension) {
        Some(s) => Ok(s),
        None => Err(TpmKeyError::InvalidKeyFormat),
    }
}

/// The extensions the sealed key's files take hold no separator.
proof fn lemma_extensions_have_no_separator()
    ensures
        no_separator("tmp_in"@),
        no_separator("tmp_out"@),
        no_separator("pub"@),
        no_separator("priv"@),
        no_separator("ctx"@),
{
    reveal_strlit("tmp_in");
    reveal_strlit("tmp_out");
    reveal_strlit("pub");
    reveal_strlit("priv");
    reveal_strlit("ctx");
    assert(!"tmp_in"@.contains('/'));
    assert(!"tmp_out"@.contains('/'));
    assert(!"pub"@.contains('/'));
    assert(!"priv"@.contains('/'));
    assert(!"ctx"@.contains('/'));
}

/// A run of one of the `tpm2-tools`.
pub struct TpmCommand {
    pub program: &'static str,
    pub args: Vec<String>,
}

impl TpmCommand {
    /// The program's name and the arguments' texts.
    pub open spec fn command_view(&self) -> (Seq<char>, Seq<Seq<char>>) {
        (self.program@, self.args@.map_values(|a: String| a@))
    }
}

/// How a run of one of the `tpm2-tools` ended.
#[derive(Debug, Clone, PartialEq, Eq)]
pub enum TpmToolOutcome {
    /// It exited successfully.
    Succeeded,
    /// It exited unsuccessfully, with this on its standard error.
    Failed(String),
    /// It could not be started, for this reason.
    NotRun(String),
}

/// The failure a run of `tool` that did not succeed is reported as.
pub open spec fn spec_tool_failure(tool: Seq<char>, outcome: TpmToolOutcome) -> Option<Seq<char>> {
    match outcome {
        TpmToolOutcome::Succeeded => None,
        TpmToolOutcome::Failed(stderr) => Some(tool + " failed: "@ + stderr@),
        TpmToolOutcome::NotRun(e) => Some("Failed to run "@ + tool + ": "@ + e@),
    }
}

/// Reports how a run of `tool` ended: success, or an operation failure
/// with the tool's name and its error output (or why it did not start).
pub fn tool_result(tool: &str, outcome: &TpmToolOutcome) -> (r: Result<(), TpmKeyError>)
    ensures
        match spec_tool_failure(tool@, *outcome) {
            None => r is Ok,
            Some(m) => r matches Err(TpmKeyError::OperationFailed(e)) && e@ == m,
        },
{
    match outcome {
        TpmToolOutcome::Succeeded => Ok(()),
        TpmToolOutcome::Failed(stderr) => {
            let mut m = tool.to_owned();
            m.append(" failed: ");
            m.append(stderr.as_str());
            Err(TpmKeyError::OperationFailed(m))
        },
        TpmToolOutcome::NotRun(e) => {
            let mut m = "Failed to run ".to_owned();
            m.append(tool);
            m.append(": ");
            m.append(e.as_str());
            Err(TpmKeyError::OperationFailed(m))
        },
    }
}

/// Sealing data into `<output>.pub` and `<output>.priv`: the file the data
/// is first written to, and the `tpm2_create` run that seals it under the
/// storage root key.
pub struct SealPlan {
    pub input_path: String,
    pub create: TpmCommand,
}

/// The plan for sealing data to `output_path` (see [`SealPlan`]); the
/// data goes to `output_path` with the extension `tmp_in`.
pub fn seal_plan(output_path: &str) -> (r: Result<SealPlan, TpmKeyError>)
    ensures
        match (
            path_with_extension(output_path@, "tmp_in"@),
            path_with_extension(output_path@, "pub"@),
            path_with_extension(output_path@, "priv"@),
        ) {
            (Some(input), Some(public), Some(private)) => r matches Ok(plan) && plan.input_path@ == input
                && plan.create.command_view() == (
                "tpm2_create"@,
                seq![
                    "-C"@,
                    SRK_HANDLE@,
                    "-g"@,
                    "sha256"@,
                    "-G"@,
                    "keyedseal"@,
                    "-i"@,
                    input,
                    "-u"@,
                    public,
                    "-r"@,
                    private,
                ],
            ),
            _ => r == Err::<SealPlan, TpmKeyError>(TpmKeyError::InvalidKeyFormat),
        },
{
    proof {
        lemma_extensions_have_no_separator();
    }
    let input = with_extension_or_invalid(output_path, "tmp_in")?;
    let public = with_extension_or_invalid(output_path, "pub")?;
    let private = with_extension_or_invalid(output_path, "priv")?;
    let mut args: Vec<String> = Vec::new();
    args.push("-C".to_owned());
    args.push(SRK_HANDLE.to_owned());
    args.push("-g".to_owned());
    args.push("sha256".to_owned());
    args.push("-G".to_owned());
    args.push("keyedseal".to_owned());
    args.push("-i".to_owned());
    args.push(input.clone());
    args.push("-u".to_owned());
    args.push(public);
    args.push("-r".to_owned());
    args.push(private);
    let create = TpmCommand { program: "tpm2_create", args };
    assert(create.command_view().1 =~= seq![
        "-C"@,
        SRK_HANDLE@,
        "-g"@,
        "sha256"@,
        "-G"@,
        "keyedseal"@,
        "-i"@,
        input@,
        "-u"@,
        path_with_extension(output_path@, "pub"@).unwrap(),
        "-r"@,
        path_with_extension(output_path@, "priv"@).unwrap(),
    ]);
    Ok(SealPlan { input_path: input, create })
}

/// Unsealing `<sealed>.pub` and `<sealed>.priv`: `tpm2_load` loads the
/// object under the storage root key into a context file, then
/// `tpm2_unseal` writes the data to the output file.
pub struct UnsealPlan {
    pub output_path: String,
    pub context_path: String,
    pub load: TpmCommand,
    pub unseal: TpmCommand,
}

/// The plan for unsealing the object sealed at `sealed_path` (see
/// [`UnsealPlan`]); the data goes to `sealed_path` with the extension
/// `tmp_out`, the context to that path with the extension `ctx`.
pub fn unseal_plan(sealed_path: &str) -> (r: Result<UnsealPlan, TpmKeyError>)
    ensures
        match path_with_extension(sealed_path@, "tmp_out"@) {
            Some(out) => match (
                path_with_extension(sealed_path@, "pub"@),
                path_with_extension(sealed_path@, "priv"@),
                path_with_extension(out, "ctx"@),
            ) {
                (Some(public), Some(private), Some(ctx)) => r matches Ok(plan) && plan.output_path@ == out
                    && plan.context_path@ == ctx && plan.load.command_view() == (
                    "tpm2_load"@,
                    seq!["-C"@, SRK_HANDLE@, "-u"@, public, "-r"@, private, "-c"@, ctx],
                ) && plan.unseal.command_view() == ("tpm2_unseal"@, seq!["-c"@, ctx, "-o"@, out]),
                _ => r == Err::<UnsealPlan, TpmKeyError>(TpmKeyError::InvalidKeyFormat),
            },
            None => r == Err::<UnsealPlan, TpmKeyError>(TpmKeyError::InvalidKeyFormat),
        },
{
    proof {
        lemma_extensions_have_no_separator();
    }
    let out = with_extension_or_invalid(sealed_path, "tmp_out")?;
    let public = with_extension_or_invalid(sealed_path, "pub")?;
    let private = with_extension_or_invalid(sealed_path, "priv")?;
    let ctx = with_extension_or_invalid(out.as_str(), "ctx")?;
    let mut load_args: Vec<String> = Vec::new();
    load_args.push("-C".to_owned());
    load_args.push(SRK_HANDLE.to_owned());
    load_args.push("-u".to_owned());
    load_args.push(public);
    load_args.push("-r".to_owned());
    load_args.push(private);
    load_args.push("-c".to_owned());
    load_args.push(ctx.clone());
    let mut unseal_args: Vec<String> = Vec::new();
    unseal_args.push("-c".to_owned());
    unseal_args.push(ctx.clone());
    unseal_args.push("-o".to_owned());
    unseal_args.push(out.clone());
    let load = TpmCommand { program: "tpm2_load", args: load_args };
    let unseal = TpmCommand { program: "tpm2_unseal", args: unseal_args };
    assert(load.command_view().1 =~= seq![
        "-C"@,
        SRK_HANDLE@,
        "-u"@,
        path_with_extension(sealed_path@, "pub"@).unwrap(),
        "-r"@,
        path_with_extension(sealed_path@, "priv"@).unwrap(),
        "-c"@,
        ctx@,
    ]);
    assert(unseal.command_view().1 =~= seq!["-c"@, ctx@, "-o"@, out@]);
    Ok(UnsealPlan { output_path: out, context_path: ctx, load, unseal })
}

/// The files a sealed key is kept in: `<sealed>.pub` and `<sealed>.priv`.
pub fn sealed_key_files(sealed_key_path: &str) -> (r: Result<(String, String), TpmKeyError>)
    ensures
        match (path_with_extension(sealed_key_path@, "pub"@), path_with_extension(sealed_key_path@, "priv"@)) {
            (Some(public), Some(private)) => r matches Ok((u, p)) && u@ == public && p@ == private,
            _ => r == Err::<(String, String), TpmKeyError>(TpmKeyError::InvalidKeyFormat),
        },
{
    proof {
        lemma_extensions_have_no_separator();
    }
    let public = with_extension_or_invalid(sealed_key_path, "pub")?;
    let private = with_extension_or_invalid(sealed_key_path, "priv")?;
    Ok((public, private))
}

/// Whether a sealed key may be loaded: the TPM tools must be present and
/// the sealed key must exist.
pub fn check_sealed_key(tpm_available: bool, key_exists: bool) -> (r: Result<(), TpmKeyError>)
    ensures
        !tpm_available ==> r == Err::<(), TpmKeyError>(TpmKeyError::NotAvailable),
        tpm_available && !key_exists ==> r == Err::<(), TpmKeyError>(TpmKeyError::KeyNotFound),
        tpm_available && key_exists ==> r is Ok,
{
    if !tpm_available {
        Err(TpmKeyError::NotAvailable)
    } else if !key_exists {
        Err(TpmKeyError::KeyNotFound)
    } else {
        Ok(())
    }
}

} // verus!
