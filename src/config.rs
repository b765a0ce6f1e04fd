use vstd::prelude::*;
use crate::command::{split_words, whitespace_words};
use crate::path::{file_name, file_name_range};
use crate::text::{bytes_occur_at, bytes_of};
use crate::watcher::views;

verus! {

/// The name of the command-line tool whose presence the default command needs.
pub const KUBECTL: &'static str = "kubectl";

/// How to install the tool on Ubuntu.
pub const KUBECTL_INSTALL_INSTRUCTIONS: &'static str = "To install kubectl on Ubuntu, run the following commands:\n\
            \n\
            1. Update the apt package index and install required packages:\n\
               sudo apt-get update\n\
               sudo apt-get install -y apt-transport-https ca-certificates curl\n\
            \n\
            2. Download the Google Cloud public signing key:\n\
               curl -fsSL https://packages.cloud.google.com/apt/doc/apt-key.gpg | sudo gpg --dearmor -o /usr/share/keyrings/kubernetes-archive-keyring.gpg\n\
            \n\
            3. Add the Kubernetes apt repository:\n\
               echo \"deb [signed-by=/usr/share/keyrings/kubernetes-archive-keyring.gpg] https://apt.kubernetes.io/ kubernetes-xenial main\" | sudo tee /etc/apt/sources.list.d/kubernetes.list\n\
            \n\
            4. Update apt package index and install kubectl:\n\
               sudo apt-get update\n\
               sudo apt-get install -y kubectl\n\
            \n\
            5. Verify installation:\n\
               kubectl version --client";

/// What the watcher is told to do; fixed for the life of the process.
#[derive(Debug)]
pub struct Config {
    /// The directory observed, with everything below it.
    pub watch_dir: String,
    /// The command line: an executable, its fixed leading arguments, split at whitespace.
    pub command: String,
    /// The file extensions, without the dot, that make a file relevant.
    pub file_extensions: Vec<String>,
    /// The file name prefixes of which a relevant file has one; none means any name.
    pub file_prefixes: Vec<String>,
    /// The debounce window in milliseconds, if any.
    pub debounce_time: Option<u64>,
}

/// Whether the executable of a command line, its first word, is `kubectl`:
/// the file name of that word is `kubectl`.
pub open spec fn names_kubectl(words: Seq<Seq<char>>) -> bool {
    words.len() > 0 && file_name(bytes_of(words[0])) == Some(bytes_of(KUBECTL@))
}

/// Whether the first of `words` is the executable `kubectl`.
pub fn executable_is_kubectl(words: &Vec<String>) -> (r: bool)
    ensures
        r == names_kubectl(views(words@)),
{
    if words.len() == 0 {
        return false;
    }
    let bytes = words[0].as_str().as_bytes();
    let tool = KUBECTL.as_bytes();
    match file_name_range(bytes) {
        Some((lo, hi)) => {
            let same = tool.len() == hi - lo && bytes_occur_at(bytes, lo, tool);
            proof {
                if tool@.len() == hi - lo {
                    assert(bytes@.subrange(lo as int, lo + tool@.len()) == bytes@.subrange(
                        lo as int,
                        hi as int,
                    ));
                }
            }
            same
        },
        None => false,
    }
}

impl Config {
    /// Whether the executable of the command line is `kubectl`, which must
    /// then be installed.
    pub fn needs_kubectl(&self) -> (r: bool)
        ensures
            r == names_kubectl(whitespace_words(self.command@)),
    {
        let words = split_words(self.command.as_str());
        executable_is_kubectl(&words)
    }

    /// Instructions for installing the tool on Ubuntu.
    pub fn get_kubectl_install_instructions() -> (r: String)
        ensures
            r@ == KUBECTL_INSTALL_INSTRUCTIONS@,
    {
        KUBECTL_INSTALL_INSTRUCTIONS.to_owned()
    }
}

impl Default for Config {
    /// Watch `/tmp/`, run `kubectl apply -f` on files named `dev-`, `prod-` or
    /// `staging-` with extension `yaml` or `yml`, with a window of 200 ms.
    fn default() -> (r: Self)
        ensures
            r.watch_dir@ == "/tmp/"@,
            r.command@ == "kubectl apply -f"@,
            r.file_extensions@.len() == 2,
            r.file_extensions@[0]@ == "yaml"@,
            r.file_extensions@[1]@ == "yml"@,
            r.file_prefixes@.len() == 3,
            r.file_prefixes@[0]@ == "dev-"@,
            r.file_prefixes@[1]@ == "prod-"@,
            r.file_prefixes@[2]@ == "staging-"@,
            r.debounce_time == Some(200u64),
    {
        Config {
            watch_dir: "/tmp/".to_owned(),
            command: "kubectl apply -f".to_owned(),
            file_extensions: vec!["yaml".to_owned(), "yml".to_owned()],
            file_prefixes: vec!["dev-".to_owned(), "prod-".to_owned(), "staging-".to_owned()],
            debounce_time: Some(200),
        }
    }
}

} // verus!
