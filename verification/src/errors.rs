//! Structured resolution failures.
//!
//! Every failure a resolution can produce is a normal, expected outcome
//! and carries enough context (the selector used, the installed
//! alternatives) for the user to self-correct.

use crate::names::name_selector_chars;
use crate::names::NameSelector;
use crate::version::version_selector_chars;
use crate::version::VersionSelector;
use vstd::prelude::*;

verus! {

/// The rendering of a list of installed versions, one per line,
/// indented under the first.
pub open spec fn joined_lines(lines: Seq<String>) -> Seq<char>
    decreases lines.len(),
{
    if lines.len() == 0 {
        Seq::<char>::empty()
    } else if lines.len() == 1 {
        lines[0]@
    } else {
        joined_lines(lines.drop_last()) + seq!['\n', ' ', ' '] + lines.last()@
    }
}

/// Joins display lines with newline-and-indent separators, proved
/// against `joined_lines`.
#[verifier::loop_isolation(false)]
pub fn join_lines(lines: &Vec<String>) -> (r: String)
    ensures
        r@ == joined_lines(lines@),
{
    let mut s = String::new();
    let mut i: usize = 0;
    while i < lines.len()
        invariant
            i <= lines@.len(),
            s@ == joined_lines(lines@.take(i as int)),
        decreases lines@.len() - i,
    {
        if i == 0 {
            s.append(lines[0].as_str());
            proof {
                assert(lines@.take(1)[0] == lines@[0]);
                assert(s@ =~= joined_lines(lines@.take(1)));
            }
        } else {
            s.append("\n  ");
            s.append(lines[i].as_str());
            proof {
                reveal_strlit("\n  ");
                let t = lines@.take(i + 1);
                assert(t.drop_last() =~= lines@.take(i as int));
                assert(t.last() == lines@[i as int]);
                assert(s@ =~= joined_lines(lines@.take(i + 1)));
            }
        }
        i = i + 1;
    }
    proof {
        assert(lines@.take(lines@.len() as int) =~= lines@);
    }
    s
}

/// A failed resolution.
#[derive(Debug, PartialEq, Eq)]
pub enum ResolutionError {
    /// No installed binary matches the name selector.
    BinaryNotFound { name: NameSelector },
    /// Binaries exist for the name but none satisfies the version
    /// selector; `installed` lists the installed versions.
    VersionMismatch { name: NameSelector, version: VersionSelector, installed: Vec<String> },
    /// Several binaries satisfy name and version but disagree on owner,
    /// so no pick can be made silently; `installed` lists the matches
    /// annotated with their owners.
    MultipleOwners { name: NameSelector, version: VersionSelector, installed: Vec<String> },
    /// The command's global binding names an identifier that is no
    /// longer installed; re-selecting a version recovers.
    StaleBinding { command: String },
    /// The bound binary does not list the command it is supposed to
    /// serve: an internal inconsistency, to be reported as a bug.
    MissingCommandPath { command: String },
    /// The command is bound to the system PATH, but only the manager's
    /// own shim is there.
    ShimOnlyOnPath { command: String },
    /// Nothing on PATH serves the command and no global version is
    /// selected; `installed` lists the candidates that could.
    NoGlobalVersionSelected { command: String, installed: Vec<String> },
    /// Nothing on PATH serves the command and nothing installed
    /// provides it either.
    CommandNotFound { command: String },
}

impl ResolutionError {
    /// The user-facing text of the failure.
    pub open spec fn message_chars(self) -> Seq<char> {
        match self {
            ResolutionError::BinaryNotFound { name } => "Could not find any installed binaries named '"@
                + name_selector_chars(name) + "'"@,
            ResolutionError::VersionMismatch { name, version, installed } => "Could not find binary '"@
                + name_selector_chars(name) + "' that matched version '"@ + version_selector_chars(
                version,
            ) + "'\n\nInstalled versions:\n  "@ + joined_lines(installed@),
            ResolutionError::MultipleOwners { name, version, installed } => "There were multiple binaries with the specified name '"@
                + name_selector_chars(name) + "' that matched version '"@ + version_selector_chars(
                version,
            ) + "'. Please include the owner to disambiguate.\n\nInstalled versions:\n  "@
                + joined_lines(installed@),
            ResolutionError::StaleBinding { command } => "The global version for '"@ + command@
                + "' refers to a binary that is no longer installed. Run `bvm use "@ + command@
                + " <some other version>` to select a version to run."@,
            ResolutionError::MissingCommandPath { command } => "Binary for '"@ + command@
                + "' does not list an executable path for that command. Report this as a bug and run `bvm use "@
                + command@ + " <some other version>` to select another version."@,
            ResolutionError::ShimOnlyOnPath { command } => "Binary '"@ + command@
                + "' is configured to use the executable on the path, but only the bvm version exists on the path. Run `bvm use "@
                + command@ + " <some other version>` to select a version to run."@,
            ResolutionError::NoGlobalVersionSelected { command, installed } => "No binary is set on the path for command '"@
                + command@ + "'. Run `bvm use "@ + command@
                + " <version>` to set a global version.\n\nInstalled versions:\n  "@ + joined_lines(
                installed@,
            ),
            ResolutionError::CommandNotFound { command } => "Could not find binary on the path for command '"@
                + command@ + "'"@,
        }
    }

    /// Renders the user-facing text of the failure, proved against
    /// `message_chars`.
    pub fn message(&self) -> (r: String)
        ensures
            r@ == self.message_chars(),
    {
        match self {
            ResolutionError::BinaryNotFound { name } => {
                let mut s = String::from_str("Could not find any installed binaries named '");
                let d = name.to_display_string();
                s.append(d.as_str());
                s.append("'");
                proof {
                    assert(s@ =~= self.message_chars());
                }
                s
            },
            ResolutionError::VersionMismatch { name, version, installed } => {
                let mut s = String::from_str("Could not find binary '");
                let d = name.to_display_string();
                s.append(d.as_str());
                s.append("' that matched version '");
                let v = version.to_display_string();
                s.append(v.as_str());
                s.append("'\n\nInstalled versions:\n  ");
                let lines = join_lines(installed);
                s.append(lines.as_str());
                proof {
                    assert(s@ =~= self.message_chars());
                }
                s
            },
            ResolutionError::MultipleOwners { name, version, installed } => {
                let mut s = String::from_str(
                    "There were multiple binaries with the specified name '",
                );
                let d = name.to_display_string();
                s.append(d.as_str());
                s.append("' that matched version '");
                let v = version.to_display_string();
                s.append(v.as_str());
                s.append("'. Please include the owner to disambiguate.\n\nInstalled versions:\n  ");
                let lines = join_lines(installed);
                s.append(lines.as_str());
                proof {
                    assert(s@ =~= self.message_chars());
                }
                s
            },
            ResolutionError::StaleBinding { command } => {
                let mut s = String::from_str("The global version for '");
                s.append(command.as_str());
                s.append("' refers to a binary that is no longer installed. Run `bvm use ");
                s.append(command.as_str());
                s.append(" <some other version>` to select a version to run.");
                proof {
                    assert(s@ =~= self.message_chars());
                }
                s
            },
            ResolutionError::MissingCommandPath { command } => {
                let mut s = String::from_str("Binary for '");
                s.append(command.as_str());
                s.append(
                    "' does not list an executable path for that command. Report this as a bug and run `bvm use ",
                );
                s.append(command.as_str());
                s.append(" <some other version>` to select another version.");
                proof {
                    assert(s@ =~= self.message_chars());
                }
                s
            },
            ResolutionError::ShimOnlyOnPath { command } => {
                let mut s = String::from_str("Binary '");
                s.append(command.as_str());
                s.append(
                    "' is configured to use the executable on the path, but only the bvm version exists on the path. Run `bvm use ",
                );
                s.append(command.as_str());
                s.append(" <some other version>` to select a version to run.");
                proof {
                    assert(s@ =~= self.message_chars());
                }
                s
            },
            ResolutionError::NoGlobalVersionSelected { command, installed } => {
                let mut s = String::from_str("No binary is set on the path for command '");
                s.append(command.as_str());
                s.append("'. Run `bvm use ");
                s.append(command.as_str());
                s.append(" <version>` to set a global version.\n\nInstalled versions:\n  ");
                let lines = join_lines(installed);
                s.append(lines.as_str());
                proof {
                    assert(s@ =~= self.message_chars());
                }
                s
            },
            ResolutionError::CommandNotFound { command } => {
                let mut s = String::from_str("Could not find binary on the path for command '");
                s.append(command.as_str());
                s.append("'");
                proof {
                    assert(s@ =~= self.message_chars());
                }
                s
            },
        }
    }
}

} // verus!
