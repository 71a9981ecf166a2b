//! The converter that turns Charles session files into HAR files, as far
//! as the engine decides about it. Running the converter and looking at
//! the processes of the machine is the caller's part.

use crate::text::{chars_of, contains_seq, find_from, lowercase_of, to_lowercase};
use vstd::prelude::*;
use vstd::string::StringExecFns;

verus! {

/// Why a conversion did not take place.
#[derive(Debug)]
pub enum CharlesConvertError {
    /// The file at this path is not there.
    FileNotFound(String),
    /// The converter ended in failure, with what it wrote to its error
    /// stream.
    ConversionFailed(String),
    /// The converter could not be run.
    IOError(String),
}

/// A text as `Debug` of std writes it: in double quotes, with what needs it
/// escaped.
pub uninterp spec fn debug_form(text: Seq<char>) -> Seq<char>;

/// Trusted: the `Debug` form of a `str`, of std, by way of `format`. The
/// result is named, not described.
#[verifier::external_body]
fn debug_text(text: &str) -> (r: String)
    ensures
        r@ == debug_form(text@),
{
    format!("{:?}", text)
}

impl CharlesConvertError {
    /// The error in words.
    pub fn message(&self) -> (r: String)
        ensures
            r@ == match *self {
                CharlesConvertError::FileNotFound(p) => "文件未找到: "@ + debug_form(p@),
                CharlesConvertError::ConversionFailed(m) => "转换失败: "@ + m@,
                CharlesConvertError::IOError(m) => "IO 错误: "@ + m@,
            },
    {
        match self {
            CharlesConvertError::FileNotFound(p) => {
                let mut s = String::from_str("文件未找到: ");
                let shown = debug_text(p.as_str());
                s.append(shown.as_str());
                s
            },
            CharlesConvertError::ConversionFailed(m) => {
                let mut s = String::from_str("转换失败: ");
                s.append(m.as_str());
                s
            },
            CharlesConvertError::IOError(m) => {
                let mut s = String::from_str("IO 错误: ");
                s.append(m.as_str());
                s
            },
        }
    }
}

/// The converter at a path that is known to be there.
#[derive(Debug)]
pub struct CharlesConverter {
    pub charles_path: String,
}

impl CharlesConverter {
    /// The converter at `charles_path`, where `exists` says that the caller
    /// found the path; else the path is reported as missing.
    pub fn new(charles_path: &str, exists: bool) -> (r: Result<Self, CharlesConvertError>)
        ensures
            exists ==> (r matches Ok(c) && c.charles_path@ == charles_path@),
            !exists ==> (r matches Err(CharlesConvertError::FileNotFound(p)) && p@
                == charles_path@),
    {
        if !exists {
            return Err(CharlesConvertError::FileNotFound(String::from_str(charles_path)));
        }
        Ok(CharlesConverter { charles_path: String::from_str(charles_path) })
    }

    /// What a run of the converter comes to: the output path where it
    /// ended well, else what it wrote to its error stream.
    pub fn conversion_result(success: bool, output: String, stderr: String) -> (r: Result<
        String,
        CharlesConvertError,
    >)
        ensures
            success ==> r == Ok::<String, CharlesConvertError>(output),
            !success ==> r == Err::<String, CharlesConvertError>(
                CharlesConvertError::ConversionFailed(stderr),
            ),
    {
        if success {
            Ok(output)
        } else {
            Err(CharlesConvertError::ConversionFailed(stderr))
        }
    }
}

/// Whether a process of this name is the Charles application: its name, in
/// lower case, contains `Charles`, `Charles.exe` or `charles` in lower
/// case.
pub open spec fn charles_name(name: Seq<char>) -> bool {
    let n = lowercase_of(name);
    contains_seq(n, lowercase_of("Charles"@)) || contains_seq(n, lowercase_of("Charles.exe"@))
        || contains_seq(n, lowercase_of("charles"@))
}

fn name_contains(name: &[char], part: &str) -> (r: bool)
    ensures
        r == contains_seq(name@, lowercase_of(part@)),
{
    let lower = to_lowercase(part);
    let p = chars_of(lower.as_str());
    find_from(name, p.as_slice(), 0).is_some()
}

/// Whether a process of this name is the Charles application.
pub fn is_charles_process(name: &str) -> (r: bool)
    ensures
        r == charles_name(name@),
{
    let lower = to_lowercase(name);
    let n = chars_of(lower.as_str());
    name_contains(n.as_slice(), "Charles") || name_contains(n.as_slice(), "Charles.exe")
        || name_contains(n.as_slice(), "charles")
}

/// What an attempt to end the Charles application comes to: whether a
/// process was ended, or, where processes were found and none could be
/// ended, the last complaint.
pub fn kill_outcome(found_charles: bool, killed_any: bool, error_message: String) -> (r: Result<
    bool,
    String,
>)
    ensures
        found_charles && !killed_any ==> r == Err::<bool, String>(error_message),
        !(found_charles && !killed_any) ==> r == Ok::<bool, String>(killed_any),
{
    if found_charles && !killed_any {
        Err(error_message)
    } else {
        Ok(killed_any)
    }
}

} // verus!
