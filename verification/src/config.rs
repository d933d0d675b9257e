//! The command line, resolved into a credential and a school.

use crate::text::views;
use vstd::prelude::*;

verus! {

/// What the command line asks for: the school whose schedule is wanted, and
/// the authorization code or access token to ask with.
#[derive(Debug, PartialEq, Eq)]
pub struct Config {
    pub school: String,
    /// Whether `auth` is an authorization code; an access token otherwise.
    pub use_code: bool,
    pub auth: String,
}

/// What a `Config` stands for.
pub struct ConfigView {
    pub school: Seq<char>,
    pub use_code: bool,
    pub auth: Seq<char>,
}

impl View for Config {
    type V = ConfigView;

    open spec fn view(&self) -> ConfigView {
        ConfigView { school: self.school@, use_code: self.use_code, auth: self.auth@ }
    }
}

/// What a run authenticates with.
#[derive(Debug, PartialEq, Eq)]
pub enum Credential {
    /// A short-lived code, to be exchanged for an access token.
    Code(String),
    /// An access token, used as it is.
    AccessToken(String),
}

/// What a `Credential` stands for.
pub enum CredentialView {
    Code(Seq<char>),
    AccessToken(Seq<char>),
}

impl View for Credential {
    type V = CredentialView;

    open spec fn view(&self) -> CredentialView {
        match self {
            Credential::Code(code) => CredentialView::Code(code@),
            Credential::AccessToken(token) => CredentialView::AccessToken(token@),
        }
    }
}

impl ConfigView {
    /// The credential of a configuration.
    pub open spec fn credential(self) -> CredentialView {
        if self.use_code {
            CredentialView::Code(self.auth)
        } else {
            CredentialView::AccessToken(self.auth)
        }
    }
}

/// Whether an argument asks for the usage text.
pub open spec fn asks_help(arg: Seq<char>) -> bool {
    arg == "-h"@ || arg == "--help"@
}

/// Whether an argument asks for the version.
pub open spec fn asks_version(arg: Seq<char>) -> bool {
    arg == "-V"@ || arg == "--version"@
}

/// Whether an argument announces an authorization code.
pub open spec fn announces_code(arg: Seq<char>) -> bool {
    arg == "-c"@ || arg == "--code"@
}

/// Whether an argument announces an access token.
pub open spec fn announces_token(arg: Seq<char>) -> bool {
    arg == "-a"@ || arg == "--access-token"@
}

/// What a command line resolves to. `args[0]` names the program. The first
/// argument decides: a request for help or for the version is answered with
/// `"help"` or `"version"`, whatever follows; a flag that announces a code or
/// a token must be followed by exactly that credential and the school. A
/// first argument that is none of these is refused: as too few or too many
/// arguments where it does not stand before exactly one more, and as no
/// known option where it does.
pub open spec fn resolve(args: Seq<Seq<char>>) -> Result<ConfigView, Seq<char>> {
    if args.len() < 2 {
        Err("not enough arguments"@)
    } else if asks_help(args[1]) {
        Err("help"@)
    } else if asks_version(args[1]) {
        Err("version"@)
    } else if announces_code(args[1]) || announces_token(args[1]) {
        if args.len() < 4 {
            Err("not enough arguments"@)
        } else if args.len() > 4 {
            Err("too many arguments"@)
        } else {
            Ok(ConfigView { school: args[3], use_code: announces_code(args[1]), auth: args[2] })
        }
    } else if args.len() < 3 {
        Err("not enough arguments"@)
    } else if args.len() > 3 {
        Err("too many arguments"@)
    } else {
        Err("unknown option"@)
    }
}

fn is(arg: &String, word: &str) -> (b: bool)
    ensures
        b == (arg@ == word@),
{
    let word = String::from_str(word);
    *arg == word
}

impl Config {
    /// Resolves the command line `args`, program name first.
    pub fn new(args: &[String]) -> (r: Result<Config, &'static str>)
        ensures
            match r {
                Ok(config) => resolve(views(args@)) == Ok::<ConfigView, Seq<char>>(config@),
                Err(e) => resolve(views(args@)) == Err::<ConfigView, Seq<char>>(e@),
            },
    {
        if args.len() < 2 {
            return Err("not enough arguments");
        }
        let flag = &args[1];
        if is(flag, "-h") || is(flag, "--help") {
            Err("help")
        } else if is(flag, "-V") || is(flag, "--version") {
            Err("version")
        } else {
            let use_code = is(flag, "-c") || is(flag, "--code");
            if use_code || is(flag, "-a") || is(flag, "--access-token") {
                if args.len() < 4 {
                    Err("not enough arguments")
                } else if args.len() > 4 {
                    Err("too many arguments")
                } else {
                    Ok(Config { school: args[3].clone(), use_code, auth: args[2].clone() })
                }
            } else if args.len() < 3 {
                Err("not enough arguments")
            } else if args.len() > 3 {
                Err("too many arguments")
            } else {
                Err("unknown option")
            }
        }
    }

    /// The credential to authenticate with.
    pub fn credential(&self) -> (r: Credential)
        ensures
            r@ == self@.credential(),
    {
        if self.use_code {
            Credential::Code(self.auth.clone())
        } else {
            Credential::AccessToken(self.auth.clone())
        }
    }
}

} // verus!
