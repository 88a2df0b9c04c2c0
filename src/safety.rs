use vstd::prelude::*;
use vstd::string::StringExecFns;
use crate::detection::{detect_encoding, detected, heuristic_label, FileEncoding};

verus! {

/// Why a safety step failed.
#[derive(Debug)]
pub enum SafetyError {
    IoError(std::io::Error),
    VerificationFailed(String),
    BackupFailed(String),
    RollbackFailed(String),
}

/// The path `part` joined onto `base`, as `Path::join` gives it.
pub uninterp spec fn joined(base: Seq<char>, part: Seq<char>) -> Seq<char>;

/// The rest of `file` after the leading components `base`, as
/// `Path::strip_prefix` gives it, or `None` where `file` is not under `base`.
pub uninterp spec fn relative_part(file: Seq<char>, base: Seq<char>) -> Option<Seq<char>>;

/// Whether the encoding library knows `label` as the name of an encoding.
pub uninterp spec fn label_known(label: Seq<char>) -> bool;

/// Relies on std::path::Path::join: the result depends on the two texts alone.
#[verifier::external_body]
fn join_path(base: &str, part: &str) -> (r: String)
    ensures
        r@ == joined(base@, part@),
{
    std::path::Path::new(base).join(part).to_string_lossy().into_owned()
}

/// Relies on std::path::Path::strip_prefix: it fails exactly where `file` does
/// not start with the components of `base`.
#[verifier::external_body]
fn strip_base(file: &str, base: &str) -> (r: Option<String>)
    ensures
        match relative_part(file@, base@) {
            Some(p) => r is Some && r.unwrap()@ == p,
            None => r is None,
        },
{
    std::path::Path::new(file).strip_prefix(base).ok().map(|p| p.to_string_lossy().into_owned())
}

/// The characters, and whether any sequence was malformed, that decoding `b`
/// without marker handling gives with the encoding known by `label`.
pub uninterp spec fn plain_decoded(label: Seq<char>, b: Seq<u8>) -> (Seq<char>, bool);

/// Relies on encoding_rs::Encoding::for_label, which finds an encoding exactly
/// for the labels it knows, and on Encoding::decode_without_bom_handling,
/// whose output depends on that encoding and the bytes alone.
#[verifier::external_body]
fn decode_labelled(label: &str, bytes: &[u8]) -> (r: Option<(Vec<char>, bool)>)
    ensures
        r is Some == label_known(label@),
        r is Some ==> (r.unwrap().0@, r.unwrap().1) == plain_decoded(label@, bytes@),
{
    encoding_rs::Encoding::for_label(label.as_bytes()).map(|enc| {
        let (cow, had_errors) = enc.decode_without_bom_handling(bytes);
        (cow.chars().collect(), had_errors)
    })
}

/// Whether bytes decoded with the encoding known by `label` pass the
/// readability rule.
pub open spec fn readable_as(label: Seq<char>, b: Seq<u8>) -> bool {
    label_known(label) && !plain_decoded(label, b).1 && !has_suspicious_char(plain_decoded(label, b).0)
}

/// A control character that is not whitespace: its presence in decoded text
/// is taken as a sign of corruption.
pub open spec fn suspicious_char(c: char) -> bool {
    let v = c as u32;
    v <= 0x08 || (0x0E <= v && v <= 0x1F) || (0x7F <= v && v <= 0x84) || (0x86 <= v && v <= 0x9F)
}

pub open spec fn has_suspicious_char(t: Seq<char>) -> bool {
    exists|i: int| 0 <= i < t.len() && suspicious_char(#[trigger] t[i])
}

/// The detected label of bytes, as the detector reports it.
pub open spec fn detected_label(b: Seq<u8>) -> Seq<char> {
    detected(b, heuristic_label(b)).0
}

fn is_suspicious(c: char) -> (r: bool)
    ensures
        r == suspicious_char(c),
{
    let v = c as u32;
    v <= 0x08 || (0x0E <= v && v <= 0x1F) || (0x7F <= v && v <= 0x84) || (0x86 <= v && v <= 0x9F)
}

/// The verdict on a decoded converted file: it passes when decoding met no
/// malformed sequence and the text holds no control character other than
/// whitespace.
pub fn readability_verdict(text: &Vec<char>, had_errors: bool) -> (r: Result<(), SafetyError>)
    ensures
        r is Ok <==> (!had_errors && !has_suspicious_char(text@)),
        r is Err ==> r matches Err(SafetyError::VerificationFailed(_)),
{
    if had_errors {
        return Err(SafetyError::VerificationFailed(String::from_str("File is not readable with its detected encoding")));
    }
    let mut i: usize = 0;
    while i < text.len()
        invariant
            i <= text@.len(),
            forall|q: int| 0 <= q < i ==> !suspicious_char(#[trigger] text@[q]),
        decreases text@.len() - i,
    {
        if is_suspicious(text[i]) {
            assert(suspicious_char(text@[i as int]));
            return Err(SafetyError::VerificationFailed(String::from_str("File contains invalid characters")));
        }
        i += 1;
    }
    Ok(())
}

/// Where one file stands in a batch run.
#[derive(Debug, Clone, Copy, PartialEq, Eq, Structural)]
pub enum FileStage {
    Pending,
    BackedUp,
    Converted,
    Verified,
    VerificationFailed,
    ConversionFailed,
    RolledBack,
    BackupAborted,
}

/// What the outside world reports about the last action for a file.
#[derive(Debug)]
pub enum FileEvent {
    BackupTaken(Option<String>),
    BackupError,
    ConversionSucceeded,
    ConversionError,
    VerificationPassed,
    VerificationError,
    RestoreDone,
}

/// What the outside world is to do next for a file.
#[derive(Debug)]
pub enum FileAction {
    Convert,
    Verify,
    Restore(String),
    Finish,
}

/// One file's progress: its stage and the backup taken for it, if any.
#[derive(Debug)]
pub struct FileRun {
    pub stage: FileStage,
    pub backup: Option<String>,
}

impl FileRun {
    pub fn start() -> (r: FileRun)
        ensures
            r.stage == FileStage::Pending,
            r.backup is None,
    {
        FileRun { stage: FileStage::Pending, backup: None }
    }
}

/// Backup, verification and rollback decisions for one batch run.
pub struct ConversionSafety {
    backup_dir: Option<String>,
    log_file: String,
    input_dir: String,
    create_backup: bool,
}

impl ConversionSafety {
    pub closed spec fn backup_root(&self) -> Option<Seq<char>> {
        match self.backup_dir {
            Some(d) => Some(d@),
            None => None,
        }
    }

    pub closed spec fn log_path(&self) -> Seq<char> {
        self.log_file@
    }

    pub closed spec fn input_root(&self) -> Seq<char> {
        self.input_dir@
    }

    pub closed spec fn backups_enabled(&self) -> bool {
        self.create_backup
    }

    /// Sets up a run named by `timestamp`: the backup root (only with backups
    /// on) and the log file both sit in `output_dir` and carry the timestamp.
    pub fn new(input_dir: &str, output_dir: &str, create_backup: bool, timestamp: &str) -> (r: ConversionSafety)
        ensures
            r.input_root() == input_dir@,
            r.backups_enabled() == create_backup,
            r.backup_root() == if create_backup {
                Some(joined(output_dir@, "backup_"@ + timestamp@))
            } else {
                None
            },
            r.log_path() == joined(output_dir@, "conversion_log_"@ + timestamp@ + ".txt"@),
    {
        let backup_dir = if create_backup {
            let name = String::from_str("backup_").concat(timestamp);
            Some(join_path(output_dir, name.as_str()))
        } else {
            None
        };
        let log_name = String::from_str("conversion_log_").concat(timestamp).concat(".txt");
        let log_file = join_path(output_dir, log_name.as_str());
        ConversionSafety { backup_dir, log_file, input_dir: String::from_str(input_dir), create_backup }
    }

    /// Where the backup of `file_path` goes: its path relative to the input
    /// root, under the backup root. Nothing with backups off; an error for a
    /// file outside the input root.
    pub fn backup_path_for(&self, file_path: &str) -> (r: Result<Option<String>, SafetyError>)
        ensures
            !self.backups_enabled() ==> r matches Ok(None),
            self.backups_enabled() && relative_part(file_path@, self.input_root()) is None ==> (
            r matches Err(SafetyError::BackupFailed(_))),
            self.backups_enabled() && self.backup_root() is None ==> (r matches Err(
                SafetyError::BackupFailed(_))),
            self.backups_enabled() && relative_part(file_path@, self.input_root()) is Some
                && self.backup_root() is Some ==> (r matches Ok(Some(p)) && p@ == joined(
                self.backup_root().unwrap(),
                relative_part(file_path@, self.input_root()).unwrap(),
            )),
    {
        if !self.create_backup {
            return Ok(None);
        }
        let rel = match strip_base(file_path, self.input_dir.as_str()) {
            Some(rel) => rel,
            None => {
                let mut msg = String::from_str("File ");
                msg.append(file_path);
                msg.append(" is not within input directory ");
                msg.append(self.input_dir.as_str());
                return Err(SafetyError::BackupFailed(msg));
            },
        };
        match &self.backup_dir {
            Some(dir) => Ok(Some(join_path(dir.as_str(), rel.as_str()))),
            None => Err(SafetyError::BackupFailed(String::from_str("Backup directory not initialized"))),
        }
    }

    /// Decodes the bytes of a converted file with the codec its detected
    /// label names, and hands the outcome to `readability_verdict`.
    fn verify_file_readability(&self, content: &[u8], encoding: &FileEncoding) -> (r: Result<(), SafetyError>)
        ensures
            r is Ok <==> readable_as(encoding.encoding@, content@),
            r is Err ==> r matches Err(SafetyError::VerificationFailed(_)),
    {
        match decode_labelled(encoding.encoding.as_str(), content) {
            Some((text, had_errors)) => readability_verdict(&text, had_errors),
            None => {
                let mut msg = String::from_str("Invalid encoding: ");
                msg.append(encoding.encoding.as_str());
                Err(SafetyError::VerificationFailed(msg))
            },
        }
    }

    /// Checks the bytes of a converted file: they must not be empty, their
    /// detected encoding must name a known codec, and decoding with it must
    /// meet no malformed sequence and give no control character other than
    /// whitespace.
    pub fn verify_conversion(&self, content: &[u8]) -> (r: Result<(), SafetyError>)
        ensures
            r is Ok <==> content@.len() > 0 && readable_as(detected_label(content@), content@),
            r is Err ==> r matches Err(SafetyError::VerificationFailed(_)),
    {
        if content.len() == 0 {
            return Err(SafetyError::VerificationFailed(String::from_str("Converted file is empty")));
        }
        let encoding = detect_encoding(content);
        self.verify_file_readability(content, &encoding)
    }

    /// The failure action: restore from the backup where backups are on and
    /// one was taken, else finish.
    fn failure_action(&self, backup: &Option<String>) -> (r: FileAction)
        ensures
            self.backups_enabled() && backup is Some ==> (r is Restore && r->Restore_0 == backup.unwrap()),
            !(self.backups_enabled() && backup is Some) ==> r is Finish,
    {
        if self.create_backup {
            match backup {
                Some(b) => FileAction::Restore(b.clone()),
                None => FileAction::Finish,
            }
        } else {
            FileAction::Finish
        }
    }

    /// Advances one file's run on an event. A backup comes first, then the
    /// conversion, then (unless skipped) the verification; a failed
    /// conversion or verification restores the backup where backups are on
    /// and one was taken. An event that does not fit the stage changes
    /// nothing and finishes.
    pub fn step(&self, run: FileRun, event: FileEvent, skip_verification: bool) -> (r: (FileRun, FileAction))
        ensures
            (run.stage == FileStage::Pending && event is BackupTaken) ==> (r.0.stage == FileStage::BackedUp
                && r.0.backup == event->BackupTaken_0 && r.1 is Convert),
            (run.stage == FileStage::Pending && event is BackupError) ==> (r.0.stage
                == FileStage::BackupAborted && r.1 is Finish),
            (run.stage == FileStage::BackedUp && event is ConversionSucceeded) ==> (r.0.backup
                == run.backup && if skip_verification {
                r.0.stage == FileStage::Verified && r.1 is Finish
            } else {
                r.0.stage == FileStage::Converted && r.1 is Verify
            }),
            (run.stage == FileStage::BackedUp && event is ConversionError) ==> (r.0.stage
                == FileStage::ConversionFailed && r.0.backup == run.backup),
            (run.stage == FileStage::Converted && event is VerificationPassed) ==> (r.0.stage
                == FileStage::Verified && r.0.backup == run.backup && r.1 is Finish),
            (run.stage == FileStage::Converted && event is VerificationError) ==> (r.0.stage
                == FileStage::VerificationFailed && r.0.backup == run.backup),
            ((run.stage == FileStage::BackedUp && event is ConversionError) || (run.stage
                == FileStage::Converted && event is VerificationError)) ==> (if self.backups_enabled()
                && run.backup is Some {
                r.1 is Restore && r.1->Restore_0 == run.backup.unwrap()
            } else {
                r.1 is Finish
            }),
            ((run.stage == FileStage::VerificationFailed || run.stage == FileStage::ConversionFailed)
                && event is RestoreDone) ==> (r.0.stage == FileStage::RolledBack && r.0.backup
                == run.backup && r.1 is Finish),
            (!(run.stage == FileStage::Pending && (event is BackupTaken || event is BackupError))
                && !(run.stage == FileStage::BackedUp && (event is ConversionSucceeded
                || event is ConversionError)) && !(run.stage == FileStage::Converted && (
            event is VerificationPassed || event is VerificationError)) && !((run.stage
                == FileStage::VerificationFailed || run.stage == FileStage::ConversionFailed)
                && event is RestoreDone)) ==> (r.0 == run && r.1 is Finish),
    {
        match (run.stage, event) {
            (FileStage::Pending, FileEvent::BackupTaken(b)) => (
                FileRun { stage: FileStage::BackedUp, backup: b },
                FileAction::Convert,
            ),
            (FileStage::Pending, FileEvent::BackupError) => (
                FileRun { stage: FileStage::BackupAborted, backup: run.backup },
                FileAction::Finish,
            ),
            (FileStage::BackedUp, FileEvent::ConversionSucceeded) => {
                if skip_verification {
                    (FileRun { stage: FileStage::Verified, backup: run.backup }, FileAction::Finish)
                } else {
                    (FileRun { stage: FileStage::Converted, backup: run.backup }, FileAction::Verify)
                }
            },
            (FileStage::BackedUp, FileEvent::ConversionError) => {
                let action = self.failure_action(&run.backup);
                (FileRun { stage: FileStage::ConversionFailed, backup: run.backup }, action)
            },
            (FileStage::Converted, FileEvent::VerificationPassed) => (
                FileRun { stage: FileStage::Verified, backup: run.backup },
                FileAction::Finish,
            ),
            (FileStage::Converted, FileEvent::VerificationError) => {
                let action = self.failure_action(&run.backup);
                (FileRun { stage: FileStage::VerificationFailed, backup: run.backup }, action)
            },
            (FileStage::VerificationFailed, FileEvent::RestoreDone) => (
                FileRun { stage: FileStage::RolledBack, backup: run.backup },
                FileAction::Finish,
            ),
            (FileStage::ConversionFailed, FileEvent::RestoreDone) => (
                FileRun { stage: FileStage::RolledBack, backup: run.backup },
                FileAction::Finish,
            ),
            _ => (run, FileAction::Finish),
        }
    }

    pub fn get_backup_dir(&self) -> (r: Option<&String>)
        ensures
            match r {
                Some(d) => self.backup_root() == Some(d@),
                None => self.backup_root() is None,
            },
    {
        match &self.backup_dir {
            Some(d) => Some(d),
            None => None,
        }
    }

    pub fn get_log_file(&self) -> (r: &String)
        ensures
            r@ == self.log_path(),
    {
        &self.log_file
    }
}

} // verus!
