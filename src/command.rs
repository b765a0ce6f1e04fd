use vstd::prelude::*;
use crate::config::{executable_is_kubectl, names_kubectl, Config};
use crate::watcher::views;
use vstd::utf8::{decode_utf8, valid_utf8};

verus! {

/// Whether a character has the Unicode `White_Space` property.
pub open spec fn is_unicode_whitespace(c: char) -> bool {
    ('\u{9}' <= c && c <= '\u{d}') || c == ' ' || c == '\u{85}' || c == '\u{a0}' || c
        == '\u{1680}' || ('\u{2000}' <= c && c <= '\u{200a}') || c == '\u{2028}' || c
        == '\u{2029}' || c == '\u{202f}' || c == '\u{205f}' || c == '\u{3000}'
}

/// The words of a text: its maximal runs of characters that are not
/// whitespace, in order.
pub open spec fn whitespace_words(s: Seq<char>) -> Seq<Seq<char>>
    decreases s.len(),
{
    if s.len() == 0 {
        Seq::empty()
    } else {
        let words = whitespace_words(s.drop_last());
        let c = s.last();
        if is_unicode_whitespace(c) {
            words
        } else if s.len() >= 2 && !is_unicode_whitespace(s[s.len() - 2]) {
            words.drop_last().push(words.last().push(c))
        } else {
            words.push(seq![c])
        }
    }
}

/// The text that lossy UTF-8 decoding makes of some bytes.
pub uninterp spec fn lossy_text(b: Seq<u8>) -> Seq<char>;

/// Relies on `str::split_whitespace`: the words of `s`, split at runs of
/// characters with the `White_Space` property, in order.
#[verifier::external_body]
pub(crate) fn split_words(s: &str) -> (r: Vec<String>)
    ensures
        views(r@) == whitespace_words(s@),
{
    s.split_whitespace().map(|w| w.to_owned()).collect()
}

/// Relies on `String::from_utf8_lossy`: the bytes decoded as UTF-8, with each
/// invalid sequence replaced.
#[verifier::external_body]
fn decode_lossy(b: &[u8]) -> (r: String)
    ensures
        r@ == lossy_text(b@),
        valid_utf8(b@) ==> r@ == decode_utf8(b@),
{
    String::from_utf8_lossy(b).into_owned()
}

/// A process to launch: the executable and its arguments, in order.
#[derive(Debug)]
pub struct Invocation {
    pub program: String,
    pub args: Vec<String>,
}

/// What the caller does next for a batch.
#[derive(Debug)]
pub enum Step {
    /// Nothing is to be launched: the batch is done.
    Finished,
    /// Find out whether `kubectl` is installed, then ask again with the answer.
    CheckKubectl,
    /// Launch this process and wait for it.
    Launch(Invocation),
}

/// Why a batch could not be handed to the command.
#[derive(Debug, PartialEq, Eq)]
pub enum DispatchError {
    /// The command line holds no word.
    EmptyCommand,
    /// The command needs `kubectl`, which is not installed.
    KubectlMissing,
    /// The process could not be launched; the launcher's message.
    Launch(String),
    /// The process exited with failure; what it wrote to standard error.
    Failed(String),
}

/// Whether `r` is the step for a batch of `files` under a command line of
/// `words`, given what is known of whether `kubectl` is installed.
pub open spec fn is_plan(
    r: Result<Step, DispatchError>,
    words: Seq<Seq<char>>,
    files: Seq<Seq<char>>,
    kubectl_found: Option<bool>,
) -> bool {
    let needs = names_kubectl(words);
    if files.len() == 0 {
        r matches Ok(Step::Finished)
    } else if words.len() == 0 {
        r == Err::<Step, DispatchError>(DispatchError::EmptyCommand)
    } else if needs && kubectl_found is None {
        r matches Ok(Step::CheckKubectl)
    } else if needs && kubectl_found == Some(false) {
        r == Err::<Step, DispatchError>(DispatchError::KubectlMissing)
    } else {
        match r {
            Ok(Step::Launch(inv)) => inv.program@ == words[0] && views(inv.args@)
                == words.drop_first() + files,
            _ => false,
        }
    }
}

/// Runs the configured command on batches of paths.
pub struct CommandRunner<'a> {
    config: &'a Config,
}

impl DispatchError {
    /// A sentence that describes the error.
    pub fn message(&self) -> (r: String)
        ensures
            match self {
                DispatchError::EmptyCommand => r@ == "Command is empty"@,
                DispatchError::KubectlMissing => r@
                    == "kubectl command not found. Please install kubectl first."@,
                DispatchError::Launch(m) => r@ == "Command could not be launched: "@ + m@,
                DispatchError::Failed(m) => r@ == "Command failed: "@ + m@,
            },
    {
        match self {
            DispatchError::EmptyCommand => "Command is empty".to_owned(),
            DispatchError::KubectlMissing => {
                "kubectl command not found. Please install kubectl first.".to_owned()
            },
            DispatchError::Launch(m) => {
                let mut s = "Command could not be launched: ".to_owned();
                s.append(m.as_str());
                s
            },
            DispatchError::Failed(m) => {
                let mut s = "Command failed: ".to_owned();
                s.append(m.as_str());
                s
            },
        }
    }
}

impl<'a> CommandRunner<'a> {
    pub closed spec fn config(&self) -> Config {
        *self.config
    }

    pub fn new(config: &'a Config) -> (r: Self)
        ensures
            r.config() == *config,
    {
        CommandRunner { config }
    }

    /// Decides what to do with a batch of paths, for a command line whose
    /// words are `words`.
    ///
    /// An empty batch is finished at once, with nothing launched. Otherwise
    /// there must be a word, else the batch fails with `EmptyCommand`. When the
    /// executable, the first word, is `kubectl`, the step first asks, through
    /// `CheckKubectl`, whether it is installed (`kubectl_found` is `None` until
    /// then) and fails with `KubectlMissing` when it is not. Then the first word
    /// is launched with the remaining words and then the paths, in order, as
    /// arguments.
    pub fn plan_for_words(words: &Vec<String>, files: &Vec<String>, kubectl_found: Option<bool>) -> (r:
        Result<Step, DispatchError>)
        ensures
            is_plan(r, views(words@), views(files@), kubectl_found),
    {
        if files.len() == 0 {
            return Ok(Step::Finished);
        }
        if words.len() == 0 {
            return Err(DispatchError::EmptyCommand);
        }
        if executable_is_kubectl(words) {
            match kubectl_found {
                None => {
                    return Ok(Step::CheckKubectl);
                },
                Some(false) => {
                    return Err(DispatchError::KubectlMissing);
                },
                Some(true) => {},
            }
        }
        let program = words[0].clone();
        let mut args: Vec<String> = Vec::new();
        let mut i: usize = 1;
        while i < words.len()
            invariant
                1 <= i <= words@.len(),
                views(args@) == views(words@).subrange(1, i as int),
            decreases words@.len() - i,
        {
            let ghost prev = args@;
            args.push(words[i].clone());
            assert(args@ == prev.push(words@[i as int]));
            assert(views(args@) =~= views(prev).push(words@[i as int]@));
            assert(views(args@) =~= views(words@).subrange(1, i as int + 1));
            i += 1;
        }
        let mut j: usize = 0;
        while j < files.len()
            invariant
                words@.len() >= 1,
                j <= files@.len(),
                views(args@) == views(words@).drop_first() + views(files@).subrange(0, j as int),
            decreases files@.len() - j,
        {
            let ghost prev = args@;
            args.push(files[j].clone());
            assert(args@ == prev.push(files@[j as int]));
            assert(views(args@) =~= views(prev).push(files@[j as int]@));
            assert(views(args@) =~= views(words@).drop_first() + views(files@).subrange(
                0,
                j as int + 1,
            ));
            j += 1;
        }
        assert(views(files@).subrange(0, files@.len() as int) =~= views(files@));
        Ok(Step::Launch(Invocation { program, args }))
    }

    /// Decides what to do with a batch of paths: `plan_for_words` on the words
    /// of the configured command line.
    pub fn execute_for_files(&self, files: &Vec<String>, kubectl_found: Option<bool>) -> (r: Result<
        Step,
        DispatchError,
    >)
        ensures
            is_plan(r, whitespace_words(self.config().command@), views(files@), kubectl_found),
    {
        if files.len() == 0 {
            return Ok(Step::Finished);
        }
        let words = split_words(self.config.command.as_str());
        CommandRunner::plan_for_words(&words, files, kubectl_found)
    }

    /// The outcome of a launched process: on success what it wrote to standard
    /// output, on failure `Failed` with what it wrote to standard error, each
    /// decoded as UTF-8 with invalid sequences replaced.
    pub fn finish(success: bool, stdout: &Vec<u8>, stderr: &Vec<u8>) -> (r: Result<
        String,
        DispatchError,
    >)
        ensures
            success ==> (r matches Ok(out) && out@ == lossy_text(stdout@)),
            !success ==> (r matches Err(DispatchError::Failed(msg)) && msg@ == lossy_text(stderr@)),
    {
        if success {
            Ok(decode_lossy(stdout.as_slice()))
        } else {
            Err(DispatchError::Failed(decode_lossy(stderr.as_slice())))
        }
    }
}

} // verus!
