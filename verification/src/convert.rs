//! The rules of the offline transcoder: which inputs and outputs it accepts,
//! how it sizes its output, which encoder it picks, and how it counts the
//! files of a batch.
//!
//! Looking at the file system and running the codec are done outside this
//! library; what they found comes in as plain values.

use crate::json::{decimal, push_decimal};
use vstd::prelude::*;

verus! {

/// Why the transcoder gave up.
#[derive(Debug, Clone, PartialEq, Eq)]
pub enum CliError {
    FileNotFound(String),
    InvalidExtension(String),
    InvalidInput(String),
    OutputExists(String),
    FfmpegError(String),
    NoVideoStream,
    EncoderNotFound,
    IoError(String),
    Internal(String),
}

/// The mathematical value of a [`CliError`].
pub enum CliErrorView {
    FileNotFound(Seq<char>),
    InvalidExtension(Seq<char>),
    InvalidInput(Seq<char>),
    OutputExists(Seq<char>),
    FfmpegError(Seq<char>),
    NoVideoStream,
    EncoderNotFound,
    IoError(Seq<char>),
    Internal(Seq<char>),
}

impl View for CliError {
    type V = CliErrorView;

    open spec fn view(&self) -> CliErrorView {
        match self {
            CliError::FileNotFound(text) => CliErrorView::FileNotFound(text@),
            CliError::InvalidExtension(text) => CliErrorView::InvalidExtension(text@),
            CliError::InvalidInput(text) => CliErrorView::InvalidInput(text@),
            CliError::OutputExists(text) => CliErrorView::OutputExists(text@),
            CliError::FfmpegError(text) => CliErrorView::FfmpegError(text@),
            CliError::NoVideoStream => CliErrorView::NoVideoStream,
            CliError::EncoderNotFound => CliErrorView::EncoderNotFound,
            CliError::IoError(text) => CliErrorView::IoError(text@),
            CliError::Internal(text) => CliErrorView::Internal(text@),
        }
    }
}

impl CliErrorView {
    /// The error in words.
    pub open spec fn text(self) -> Seq<char> {
        match self {
            CliErrorView::FileNotFound(path) => "File not found: "@ + path,
            CliErrorView::InvalidExtension(path) => "Invalid file extension: "@ + path
                + " (expected .mp4, .mov, or .h265)"@,
            CliErrorView::InvalidInput(text) => "Invalid input: "@ + text,
            CliErrorView::OutputExists(path) => "Output file already exists: "@ + path
                + " (use --force to overwrite)"@,
            CliErrorView::FfmpegError(text) => "FFmpeg error: "@ + text,
            CliErrorView::NoVideoStream => "No video stream found in input file"@,
            CliErrorView::EncoderNotFound =>
                "H.265/HEVC encoder not available (is libx265 installed?)"@,
            CliErrorView::IoError(text) => "IO error: "@ + text,
            CliErrorView::Internal(text) => "Internal error: "@ + text,
        }
    }
}

/// `prefix` followed by `text`.
fn prefixed(prefix: &str, text: &str) -> (out: String)
    ensures
        out@ == prefix@ + text@,
{
    let mut out = prefix.to_string();
    out.append(text);
    out
}

/// `prefix`, `text` and `suffix` in a row.
fn wrapped(prefix: &str, text: &str, suffix: &str) -> (out: String)
    ensures
        out@ == prefix@ + text@ + suffix@,
{
    let mut out = prefix.to_string();
    out.append(text);
    out.append(suffix);
    out
}

impl CliError {
    /// The error in words.
    pub fn message(&self) -> (text: String)
        ensures
            text@ == self@.text(),
    {
        match self {
            CliError::FileNotFound(path) => prefixed("File not found: ", path.as_str()),
            CliError::InvalidExtension(path) => wrapped(
                "Invalid file extension: ",
                path.as_str(),
                " (expected .mp4, .mov, or .h265)",
            ),
            CliError::InvalidInput(text) => prefixed("Invalid input: ", text.as_str()),
            CliError::OutputExists(path) => wrapped(
                "Output file already exists: ",
                path.as_str(),
                " (use --force to overwrite)",
            ),
            CliError::FfmpegError(text) => prefixed("FFmpeg error: ", text.as_str()),
            CliError::NoVideoStream => "No video stream found in input file".to_string(),
            CliError::EncoderNotFound => {
                "H.265/HEVC encoder not available (is libx265 installed?)".to_string()
            },
            CliError::IoError(text) => prefixed("IO error: ", text.as_str()),
            CliError::Internal(text) => prefixed("Internal error: ", text.as_str()),
        }
    }
}

/// The outcome of a check, with the error by its view.
pub open spec fn checked(outcome: Result<(), CliError>) -> Result<(), CliErrorView> {
    match outcome {
        Ok(()) => Ok(()),
        Err(error) => Err(error@),
    }
}

// ---------------------------------------------------------------------------
// Inputs and outputs
// ---------------------------------------------------------------------------
/// The lower-case form of an ASCII letter; any other character as it is.
pub open spec fn ascii_lower(c: char) -> char {
    if 'A' <= c && c <= 'Z' {
        ((c as u8) + 32) as char
    } else {
        c
    }
}

/// Two texts are equal when upper and lower case of ASCII letters are not
/// told apart.
pub open spec fn same_ignoring_case(left: Seq<char>, right: Seq<char>) -> bool {
    left.len() == right.len() && forall|i: int|
        0 <= i < left.len() ==> ascii_lower(#[trigger] left[i]) == ascii_lower(right[i])
}

/// An extension that the transcoder reads: `mp4`, `mov` or `h265`, in upper
/// or lower case.
pub open spec fn supported_extension(extension: Seq<char>) -> bool {
    same_ignoring_case(extension, "mp4"@) || same_ignoring_case(extension, "mov"@)
        || same_ignoring_case(extension, "h265"@)
}

/// What checking an input file amounts to, given whether the file exists and
/// what its extension is.
pub open spec fn input_check(path: Seq<char>, exists_on_disk: bool, extension: Option<Seq<char>>)
    -> Result<(), CliErrorView> {
    if !exists_on_disk {
        Err(CliErrorView::FileNotFound(path))
    } else {
        match extension {
            None => Err(CliErrorView::InvalidInput("No extension found: "@ + path)),
            Some(ext) => if supported_extension(ext) {
                Ok(())
            } else {
                Err(CliErrorView::InvalidExtension(path))
            },
        }
    }
}

/// The lower-case form of an ASCII letter; any other character as it is.
fn lower(c: char) -> (l: char)
    ensures
        l == ascii_lower(c),
{
    if 'A' <= c && c <= 'Z' {
        ((c as u8) + 32) as char
    } else {
        c
    }
}

/// Whether two texts are equal, upper and lower case not told apart.
fn equal_ignoring_case(left: &str, right: &str) -> (same: bool)
    ensures
        same == same_ignoring_case(left@, right@),
{
    let n = left.unicode_len();
    if n != right.unicode_len() {
        return false;
    }
    let mut i: usize = 0;
    while i < n
        invariant
            0 <= i <= n,
            n == left@.len(),
            n == right@.len(),
            forall|j: int| 0 <= j < i ==> ascii_lower(#[trigger] left@[j]) == ascii_lower(right@[j]),
        decreases n - i,
    {
        if lower(left.get_char(i)) != lower(right.get_char(i)) {
            return false;
        }
        i = i + 1;
    }
    true
}

/// Checks an input file: it must exist and have a supported extension.
pub fn validate_input(path: &str, exists_on_disk: bool, extension: Option<&str>) -> (outcome:
    Result<(), CliError>)
    ensures
        checked(outcome) == input_check(
            path@,
            exists_on_disk,
            match extension {
                Some(ext) => Some(ext@),
                None => None,
            },
        ),
{
    if !exists_on_disk {
        return Err(CliError::FileNotFound(path.to_string()));
    }
    match extension {
        None => {
            let mut text = "No extension found: ".to_string();
            text.append(path);
            Err(CliError::InvalidInput(text))
        },
        Some(ext) => {
            if equal_ignoring_case(ext, "mp4") || equal_ignoring_case(ext, "mov")
                || equal_ignoring_case(ext, "h265") {
                Ok(())
            } else {
                Err(CliError::InvalidExtension(path.to_string()))
            }
        },
    }
}

/// Refuses to overwrite an existing output unless forced to.
pub fn check_output_exists(path: &str, exists_on_disk: bool, force: bool) -> (outcome: Result<
    (),
    CliError,
>)
    ensures
        checked(outcome) == if exists_on_disk && !force {
            Err::<(), CliErrorView>(CliErrorView::OutputExists(path@))
        } else {
            Ok::<(), CliErrorView>(())
        },
{
    if exists_on_disk && !force {
        return Err(CliError::OutputExists(path.to_string()));
    }
    Ok(())
}

/// Checks the input of a batch: it must exist and be a directory.
pub fn validate_batch_input(path: &str, exists_on_disk: bool, is_directory: bool) -> (outcome:
    Result<(), CliError>)
    ensures
        checked(outcome) == if !exists_on_disk {
            Err::<(), CliErrorView>(CliErrorView::FileNotFound(path@))
        } else if !is_directory {
            Err::<(), CliErrorView>(
                CliErrorView::InvalidInput(
                    "Batch mode (-R) requires directory, got file: "@ + path@,
                ),
            )
        } else {
            Ok::<(), CliErrorView>(())
        },
{
    if !exists_on_disk {
        return Err(CliError::FileNotFound(path.to_string()));
    }
    if !is_directory {
        let mut text = "Batch mode (-R) requires directory, got file: ".to_string();
        text.append(path);
        return Err(CliError::InvalidInput(text));
    }
    Ok(())
}

// ---------------------------------------------------------------------------
// Output size
// ---------------------------------------------------------------------------
/// A number with exactly one bit set.
pub open spec fn is_power_of_two(n: u32) -> bool {
    n != 0 && n & ((n - 1) as u32) == 0
}

/// Side of the smallest picture the transcoder writes.
pub const MIN_DIMENSION: u32 = 64;

/// What checking a downscale divisor amounts to: it must be a power of two
/// and leave at least 64 pixels in both directions.
pub open spec fn downscale_check(divisor: u32, width: u32, height: u32) -> Result<
    (),
    CliErrorView,
> {
    if !is_power_of_two(divisor) {
        Err(
            CliErrorView::InvalidInput(
                "Downscale divisor must be power of 2, got "@ + decimal(divisor as nat),
            ),
        )
    } else if width / divisor < MIN_DIMENSION || height / divisor < MIN_DIMENSION {
        Err(
            CliErrorView::InvalidInput(
                "Downscaled dimensions "@ + decimal((width / divisor) as nat) + "x"@ + decimal(
                    (height / divisor) as nat,
                ) + " too small (min 64x64)"@,
            ),
        )
    } else {
        Ok(())
    }
}

/// Checks a downscale divisor against the size of the input.
pub fn validate_downscale(divisor: u32, width: u32, height: u32) -> (outcome: Result<
    (),
    CliError,
>)
    ensures
        checked(outcome) == downscale_check(divisor, width, height),
{
    if divisor == 0 || divisor & (divisor - 1) != 0 {
        let mut text = "Downscale divisor must be power of 2, got ".to_string();
        push_decimal(&mut text, divisor as u64);
        return Err(CliError::InvalidInput(text));
    }
    if width / divisor < MIN_DIMENSION || height / divisor < MIN_DIMENSION {
        let mut text = "Downscaled dimensions ".to_string();
        push_decimal(&mut text, (width / divisor) as u64);
        text.append("x");
        push_decimal(&mut text, (height / divisor) as u64);
        text.append(" too small (min 64x64)");
        proof {
            assert(text@ =~= "Downscaled dimensions "@ + decimal((width / divisor) as nat) + "x"@
                + decimal((height / divisor) as nat) + " too small (min 64x64)"@);
        }
        return Err(CliError::InvalidInput(text));
    }
    Ok(())
}

/// The size of the output: the input's size, divided by the divisor where
/// one is given and accepted.
pub fn output_size(width: u32, height: u32, downscale: Option<u32>) -> (size: Result<
    (u32, u32),
    CliError,
>)
    ensures
        match downscale {
            None => size == Ok::<(u32, u32), CliError>((width, height)),
            Some(divisor) => match size {
                Ok(scaled) => downscale_check(divisor, width, height) is Ok && scaled == (
                    (width / divisor) as u32,
                    (height / divisor) as u32,
                ),
                Err(error) => downscale_check(divisor, width, height) == Err::<(), CliErrorView>(
                    error@,
                ),
            },
        },
{
    match downscale {
        None => Ok((width, height)),
        Some(divisor) => match validate_downscale(divisor, width, height) {
            Ok(()) => Ok((width / divisor, height / divisor)),
            Err(error) => Err(error),
        },
    }
}

// ---------------------------------------------------------------------------
// Encoder and threads
// ---------------------------------------------------------------------------
/// The encoder that writes the output, with the pixel format it takes.
#[derive(Debug, Clone, Copy, PartialEq, Eq, Structural)]
pub enum EncoderChoice {
    /// The GPU encoder, fed NV12.
    Nvenc,
    /// The CPU encoder, fed planar YUV 4:2:0.
    X265,
}

/// Picks the GPU encoder where it is asked for and available, else the CPU
/// encoder.
pub fn select_encoder(use_gpu: bool, nvenc_available: bool) -> (choice: EncoderChoice)
    ensures
        choice == if use_gpu && nvenc_available {
            EncoderChoice::Nvenc
        } else {
            EncoderChoice::X265
        },
{
    if use_gpu && nvenc_available {
        EncoderChoice::Nvenc
    } else {
        EncoderChoice::X265
    }
}

/// Threads for decoding: one per processor, sixteen at most.
pub fn decoder_threads(processors: usize) -> (threads: usize)
    ensures
        threads == if processors < 16 {
            processors
        } else {
            16
        },
{
    if processors < 16 {
        processors
    } else {
        16
    }
}

/// Threads for encoding on the CPU: one per processor, eight at most. The
/// GPU encoder is given none.
pub fn encoder_threads(processors: usize, use_gpu: bool) -> (threads: Option<usize>)
    ensures
        threads == if use_gpu {
            None::<usize>
        } else if processors < 8 {
            Some(processors)
        } else {
            Some(8usize)
        },
{
    if use_gpu {
        None
    } else if processors < 8 {
        Some(processors)
    } else {
        Some(8)
    }
}

// ---------------------------------------------------------------------------
// Batches
// ---------------------------------------------------------------------------
/// How the conversion of one file of a batch ended.
#[derive(Debug, Clone, Copy, PartialEq, Eq, Structural)]
pub enum BatchStatus {
    Success,
    Failed,
    Skipped,
}

/// The record of one file of a batch.
#[derive(Debug, Clone, PartialEq, Eq)]
pub struct BatchFileResult {
    pub input: String,
    pub output: Option<String>,
    pub frame_count: Option<usize>,
    pub status: BatchStatus,
    pub error: Option<String>,
}

/// The number of records with the given status.
pub open spec fn count_status(results: Seq<BatchFileResult>, status: BatchStatus) -> nat
    decreases results.len(),
{
    if results.len() == 0 {
        0
    } else {
        count_status(results.drop_last(), status) + if results.last().status == status {
            1nat
        } else {
            0nat
        }
    }
}

/// No more records have a status than there are records.
pub proof fn lemma_count_status_bound(results: Seq<BatchFileResult>, status: BatchStatus)
    ensures
        count_status(results, status) <= results.len(),
    decreases results.len(),
{
    if results.len() > 0 {
        lemma_count_status_bound(results.drop_last(), status);
    }
}

/// The records of a batch and how many of them ended in which way.
#[derive(Debug)]
pub struct BatchSummary {
    total: usize,
    successful: usize,
    failed: usize,
    skipped: usize,
    results: Vec<BatchFileResult>,
}

impl BatchSummary {
    #[verifier::type_invariant]
    spec fn counted(self) -> bool {
        &&& self.total == self.results@.len()
        &&& self.successful == count_status(self.results@, BatchStatus::Success)
        &&& self.failed == count_status(self.results@, BatchStatus::Failed)
        &&& self.skipped == count_status(self.results@, BatchStatus::Skipped)
    }

    /// The records, in the order in which they were added.
    pub closed spec fn records(&self) -> Seq<BatchFileResult> {
        self.results@
    }

    /// A summary without records.
    pub fn new() -> (summary: BatchSummary)
        ensures
            summary.records() == Seq::<BatchFileResult>::empty(),
    {
        BatchSummary { total: 0, successful: 0, failed: 0, skipped: 0, results: Vec::new() }
    }

    /// Adds the record of one file and counts it under its status.
    pub fn record(self, result: BatchFileResult) -> (summary: BatchSummary)
        ensures
            summary.records() == self.records().push(result),
    {
        proof {
            use_type_invariant(&self);
        }
        let BatchSummary { total, successful, failed, skipped, results } = self;
        let status = result.status;
        let ghost before = results@;
        let mut results = results;
        results.push(result);
        let total = results.len();
        proof {
            assert(results@.drop_last() =~= before);
            lemma_count_status_bound(before, BatchStatus::Success);
            lemma_count_status_bound(before, BatchStatus::Failed);
            lemma_count_status_bound(before, BatchStatus::Skipped);
        }
        let (successful, failed, skipped) = match status {
            BatchStatus::Success => (successful + 1, failed, skipped),
            BatchStatus::Failed => (successful, failed + 1, skipped),
            BatchStatus::Skipped => (successful, failed, skipped + 1),
        };
        BatchSummary { total, successful, failed, skipped, results }
    }

    /// Number of files.
    pub fn total(&self) -> (n: usize)
        ensures
            n == self.records().len(),
    {
        proof {
            use_type_invariant(self);
        }
        self.total
    }

    /// Number of files converted.
    pub fn successful(&self) -> (n: usize)
        ensures
            n == count_status(self.records(), BatchStatus::Success),
    {
        proof {
            use_type_invariant(self);
        }
        self.successful
    }

    /// Number of files that could not be converted.
    pub fn failed(&self) -> (n: usize)
        ensures
            n == count_status(self.records(), BatchStatus::Failed),
    {
        proof {
            use_type_invariant(self);
        }
        self.failed
    }

    /// Number of files left alone because their output exists.
    pub fn skipped(&self) -> (n: usize)
        ensures
            n == count_status(self.records(), BatchStatus::Skipped),
    {
        proof {
            use_type_invariant(self);
        }
        self.skipped
    }

    /// The records, in the order in which they were added.
    pub fn results(&self) -> (results: &Vec<BatchFileResult>)
        ensures
            results@ == self.records(),
    {
        &self.results
    }
}

/// Every record is counted under exactly one status.
pub proof fn lemma_counts_add_up(results: Seq<BatchFileResult>)
    ensures
        count_status(results, BatchStatus::Success) + count_status(results, BatchStatus::Failed)
            + count_status(results, BatchStatus::Skipped) == results.len(),
    decreases results.len(),
{
    if results.len() > 0 {
        lemma_counts_add_up(results.drop_last());
    }
}

} // verus!
