use vstd::prelude::*;
use vstd::string::StringExecFns;

use crate::alias::AliasTable;
use crate::alias::Expansion;
use crate::alias::expand_alias;
use crate::alias::resolve_alias;
use crate::error::HelpError;
use crate::error::HelpErrorView;
use crate::keyword::KeywordTable;
use crate::keyword::KeywordView;
use crate::keyword::find_in;
use crate::keyword::find_keyword;
use crate::registry::CommandNode;
use crate::registry::first_invalid;
use crate::registry::match_command_path;
use crate::registry::matched_node;
use crate::registry::validate_command_path;
use crate::strings::clone_tokens;

verus! {

/// One help request: either a (possibly empty) command path, or a
/// documentation keyword; the caller rejects requests that carry both.
pub struct HelpArgs {
    /// Path of the subcommand whose help is requested.
    pub command: Vec<String>,
    /// Show help for this keyword instead of a command.
    pub keyword: Option<String>,
}

/// What `shlex::try_join` yields for a sequence of words without nul
/// characters; the result depends on the words alone.
pub uninterp spec fn shell_joined(words: Seq<Seq<char>>) -> Seq<char>;

/// Relies on `shlex::try_join`: each word is quoted as one shell argument,
/// consecutive words separated by a single space; with default settings the
/// only error is a word holding a nul character.
#[verifier::external_body]
fn try_join_tokens(tokens: &Vec<String>) -> (r: Option<String>)
    ensures
        match r {
            Some(s) => (forall|i: int|
                0 <= i < tokens.deep_view().len() ==> !tokens.deep_view()[i].contains('\0'))
                && s@ == shell_joined(tokens.deep_view()),
            None => exists|i: int|
                0 <= i < tokens.deep_view().len() && tokens.deep_view()[i].contains('\0'),
        },
{
    match shlex::try_join(tokens.iter().map(|s| s.as_str())) {
        Ok(joined) => Some(joined),
        Err(_) => None,
    }
}

/// What the standard debug formatting of a token list renders; it depends on
/// the tokens alone.
pub uninterp spec fn debug_list(tokens: Seq<Seq<char>>) -> Seq<char>;

/// Relies on `core::fmt::Debug` for `Vec<String>`: the rendering is a pure
/// function of the tokens.
#[verifier::external_body]
fn format_debug_list(tokens: &Vec<String>) -> (r: String)
    ensures
        r@ == debug_list(tokens.deep_view()),
{
    format!("{tokens:?}")
}

/// The banner line announcing what an alias stands for: its definition
/// shell-quoted, or debug-formatted when shell quoting is impossible because a
/// token holds a nul character.
pub open spec fn spec_alias_banner(tokens: Seq<Seq<char>>) -> Seq<char> {
    if forall|i: int| 0 <= i < tokens.len() ==> !tokens[i].contains('\0') {
        "Alias for \""@ + shell_joined(tokens) + "\""@
    } else {
        "Alias for "@ + debug_list(tokens)
    }
}

/// Formats an alias definition for display in help output.
pub fn format_alias_definition(alias_definition: &Vec<String>) -> (r: String)
    ensures
        r@ == spec_alias_banner(alias_definition.deep_view()),
{
    match try_join_tokens(alias_definition) {
        Some(joined) => {
            let mut s = "Alias for \"".to_owned();
            s.append(joined.as_str());
            s.append("\"");
            s
        },
        None => {
            let mut s = "Alias for ".to_owned();
            let rendered = format_debug_list(alias_definition);
            s.append(rendered.as_str());
            s
        },
    }
}

/// The long-form help of `node`, in the rendering the caller's color setting
/// selects.
pub open spec fn rendered_help(node: CommandNode, color: bool) -> Seq<char> {
    if color {
        node.help_ansi@
    } else {
        node.help_plain@
    }
}

/// The response to a keyword request: the stored content of the topic, or the
/// not-found error.
pub open spec fn keyword_response(keywords: Seq<KeywordView>, name: Seq<char>) -> Result<
    Seq<char>,
    HelpErrorView,
> {
    match find_in(keywords, name) {
        Some(k) => Ok(k.content),
        None => Err(HelpErrorView::NotFound { keyword: name }),
    }
}

/// The response to a command-path request. A leading alias is expanded first
/// (a cycle fails the request); an alias must be the sole token; the effective
/// path must not reference an unknown subcommand name; the answer is the help
/// of the deepest matched node, preceded for an alias by its banner and a
/// blank separator line.
pub open spec fn command_response(
    aliases: Map<Seq<char>, Seq<Seq<char>>>,
    root: CommandNode,
    tokens: Seq<Seq<char>>,
    color: bool,
) -> Result<Seq<char>, HelpErrorView> {
    if tokens.len() > 0 && aliases.dom().contains(tokens[0]) {
        match expand_alias(aliases, tokens[0], Set::empty()) {
            Expansion::Cycle(c) => Err(HelpErrorView::CyclicAlias { name: c }),
            Expansion::Expanded(exp) => {
                if tokens.len() > 1 {
                    Err(HelpErrorView::ExtraneousAliasArguments { alias: tokens[0] })
                } else {
                    match first_invalid(root, exp) {
                        Some(t) => Err(HelpErrorView::InvalidSubcommand { token: t }),
                        None => Ok(
                            spec_alias_banner(aliases[tokens[0]]) + "\n"@ + "\n"@ + rendered_help(
                                matched_node(root, exp),
                                color,
                            ),
                        ),
                    }
                }
            },
        }
    } else {
        match first_invalid(root, tokens) {
            Some(t) => Err(HelpErrorView::InvalidSubcommand { token: t }),
            None => Ok(rendered_help(matched_node(root, tokens), color)),
        }
    }
}

/// The response to a whole help request.
pub open spec fn help_response(
    args: HelpArgs,
    aliases: Map<Seq<char>, Seq<Seq<char>>>,
    root: CommandNode,
    keywords: Seq<KeywordView>,
    color: bool,
) -> Result<Seq<char>, HelpErrorView> {
    match args.keyword {
        Some(k) => keyword_response(keywords, k@),
        None => command_response(aliases, root, args.command.deep_view(), color),
    }
}

/// A result as its mathematical image: the text to emit, or the error.
pub open spec fn result_view(r: Result<String, HelpError>) -> Result<Seq<char>, HelpErrorView> {
    match r {
        Ok(s) => Ok(s@),
        Err(e) => Err(e@),
    }
}

/// Answers one help request: the text to write to the output stream, or the
/// error to report. Nothing is emitted for a failed request; the caller pages
/// and writes the returned text.
pub fn cmd_help(
    args: &HelpArgs,
    aliases: &AliasTable,
    root: &CommandNode,
    keywords: &KeywordTable,
    color: bool,
) -> (r: Result<String, HelpError>)
    requires
        aliases.wf(),
        root.wf(),
    ensures
        result_view(r) == help_response(*args, aliases@, *root, keywords@, color),
{
    if let Some(name) = &args.keyword {
        return match find_keyword(keywords, name.as_str()) {
            Some(k) => Ok(k.content.clone()),
            None => Err(HelpError::NotFound { keyword: name.clone() }),
        };
    }

    let mut banner_definition: Option<Vec<String>> = None;
    let command_path: Vec<String>;
    if args.command.len() > 0 {
        match resolve_alias(aliases, args.command[0].as_str()) {
            Err(e) => {
                return Err(e);
            },
            Ok(Some((original, resolved))) => {
                if args.command.len() > 1 {
                    return Err(
                        HelpError::ExtraneousAliasArguments { alias: args.command[0].clone() },
                    );
                }
                banner_definition = Some(original);
                command_path = resolved;
            },
            Ok(None) => {
                command_path = clone_tokens(&args.command);
            },
        }
    } else {
        command_path = clone_tokens(&args.command);
    }

    if let Err(e) = validate_command_path(root, &command_path) {
        return Err(e);
    }

    let (node, _depth) = match_command_path(root, &command_path);

    let mut out = String::new();
    if let Some(original) = &banner_definition {
        let banner = format_alias_definition(original);
        out.append(banner.as_str());
        out.append("\n");
        out.append("\n");
    }
    if color {
        out.append(node.help_ansi.as_str());
    } else {
        out.append(node.help_plain.as_str());
    }
    Ok(out)
}

} // verus!
