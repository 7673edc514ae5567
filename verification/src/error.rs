use vstd::prelude::*;
use vstd::string::StringExecFns;

verus! {

/// A failed help request, as reported to the user. Every failure is terminal
/// for the single request that raised it; nothing is written once one is
/// detected.
#[derive(Debug)]
pub enum HelpError {
    /// Alias expansion revisited `name` within its own expansion chain.
    CyclicAlias { name: String },
    /// A help request named the alias `alias` and supplied further path
    /// components after it.
    ExtraneousAliasArguments { alias: String },
    /// `token` stood where a subcommand name was expected but does not name
    /// one.
    InvalidSubcommand { token: String },
    /// A keyword request named `keyword`, which is not a registered topic.
    NotFound { keyword: String },
}

/// Mathematical image of a `HelpError`: each payload as a character sequence.
pub ghost enum HelpErrorView {
    CyclicAlias { name: Seq<char> },
    ExtraneousAliasArguments { alias: Seq<char> },
    InvalidSubcommand { token: Seq<char> },
    NotFound { keyword: Seq<char> },
}

impl View for HelpError {
    type V = HelpErrorView;

    open spec fn view(&self) -> HelpErrorView {
        match self {
            HelpError::CyclicAlias { name } => HelpErrorView::CyclicAlias { name: name@ },
            HelpError::ExtraneousAliasArguments { alias } => HelpErrorView::ExtraneousAliasArguments {
                alias: alias@,
            },
            HelpError::InvalidSubcommand { token } => HelpErrorView::InvalidSubcommand {
                token: token@,
            },
            HelpError::NotFound { keyword } => HelpErrorView::NotFound { keyword: keyword@ },
        }
    }
}

/// The user-facing message that belongs to `e`.
pub open spec fn spec_message(e: HelpErrorView) -> Seq<char> {
    match e {
        HelpErrorView::CyclicAlias { name } => "Recursive alias definition involving '"@ + name
            + "'"@,
        HelpErrorView::ExtraneousAliasArguments { alias } => "Invalid arguments following alias '"@
            + alias + "'"@,
        HelpErrorView::InvalidSubcommand { token } => "Unrecognized subcommand '"@ + token + "'"@,
        HelpErrorView::NotFound { keyword } => "No help entry found for keyword '"@ + keyword
            + "'"@,
    }
}

impl HelpError {
    /// Renders the message shown to the user for this error.
    pub fn message(&self) -> (r: String)
        ensures
            r@ == spec_message(self@),
    {
        match self {
            HelpError::CyclicAlias { name } => {
                let mut s = "Recursive alias definition involving '".to_owned();
                s.append(name.as_str());
                s.append("'");
                s
            },
            HelpError::ExtraneousAliasArguments { alias } => {
                let mut s = "Invalid arguments following alias '".to_owned();
                s.append(alias.as_str());
                s.append("'");
                s
            },
            HelpError::InvalidSubcommand { token } => {
                let mut s = "Unrecognized subcommand '".to_owned();
                s.append(token.as_str());
                s.append("'");
                s
            },
            HelpError::NotFound { keyword } => {
                let mut s = "No help entry found for keyword '".to_owned();
                s.append(keyword.as_str());
                s.append("'");
                s
            },
        }
    }
}

} // verus!
