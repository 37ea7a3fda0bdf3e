//! Completion of a partly typed line: which words can come next.

use vstd::prelude::*;
use vstd::string::StringExecFns;
use vstd::utf8::{
    decode_utf8,
    encode_utf8,
    encode_utf8_decode_utf8,
    encode_utf8_valid_utf8,
    is_char_boundary,
};
use crate::command::{
    find_deepest_subcommand,
    is_called,
    match_chain,
    Command,
    CommandManager,
    CommandOption,
    SubCommand,
};
use crate::seqs::{
    comes_before,
    first_index,
    lemma_filter_all,
    lemma_filter_keeps_order,
    lemma_filter_members,
    lemma_filter_same,
    lemma_filter_step,
};
use crate::text::{
    byte_offset,
    chars_of,
    count_dashes,
    ends_blank,
    ends_dash,
    find_word_start,
    is_whitespace,
    lemma_encode_concat,
    lemma_prefix_ends_at_boundary,
    lemma_utf8_len_take,
    starts_with,
    strip_dashes,
    utf8_len,
    word_start,
};
use crate::tokenizer::{shlex_split, tokenize, word_views};

verus! {

/// One proposed completion: the text to insert in place of the word under
/// the cursor, and the text to show for it in the menu.
pub ghost struct Candidate {
    pub insert_text: Seq<char>,
    pub display_text: Seq<char>,
}

/// One proposed completion.
pub struct SmartCandidate {
    pub word: String,
    pub desc: &'static str,
}

impl View for SmartCandidate {
    type V = Candidate;

    open spec fn view(&self) -> Candidate {
        Candidate { insert_text: self.word@, display_text: self.desc@ }
    }
}

impl SmartCandidate {
    /// The text shown in the completion menu.
    pub fn display(&self) -> (r: &str)
        ensures
            r@ == self@.display_text,
    {
        self.desc
    }

    /// The text that replaces the word under the cursor.
    pub fn replacement(&self) -> (r: &str)
        ensures
            r@ == self@.insert_text,
    {
        self.word.as_str()
    }
}

/// The candidates that a list of `SmartCandidate` stands for.
pub open spec fn candidate_views(list: Seq<SmartCandidate>) -> Seq<Candidate> {
    list.map_values(|c: SmartCandidate| c@)
}

/// An option as it is typed: two dashes and the name.
pub open spec fn flag(name: Seq<char>) -> Seq<char> {
    seq!['-', '-'] + name
}

/// Holds of a sub-command that is offered: after a trailing blank every one
/// is, otherwise those whose name begins with the last word.
pub open spec fn offers_subcommand(last_token: Option<Seq<char>>, input: Seq<char>) -> spec_fn(
    SubCommand,
) -> bool {
    |node: SubCommand|
        ends_blank(input) || match last_token {
            Some(token) => token.is_prefix_of(node.name@),
            None => true,
        }
}

/// The candidate that stands for a sub-command.
pub open spec fn subcommand_candidate() -> spec_fn(SubCommand) -> Candidate {
    |node: SubCommand| Candidate { insert_text: node.name@, display_text: node.help@ }
}

/// The sub-command candidates, in declaration order.
pub open spec fn subcommand_candidates(
    subs: Seq<SubCommand>,
    last_token: Option<Seq<char>>,
    input: Seq<char>,
) -> Seq<Candidate> {
    subs.filter(offers_subcommand(last_token, input)).map_values(subcommand_candidate())
}

/// Whether the typed text selects the option called `name`: after a
/// trailing blank or dash every name is selected, otherwise those that
/// begin with the last word less its leading dashes.
pub open spec fn selects_option(name: Seq<char>, tokens: Seq<Seq<char>>, input: Seq<char>) -> bool {
    ends_blank(input) || ends_dash(input) || tokens.len() == 0 || strip_dashes(
        tokens.last(),
    ).is_prefix_of(name)
}

/// Holds of an option that is offered: one that the typed text selects and
/// that is not on the line already.
pub open spec fn offers_option(tokens: Seq<Seq<char>>, input: Seq<char>) -> spec_fn(
    CommandOption,
) -> bool {
    |option: CommandOption|
        selects_option(option.name@, tokens, input) && !tokens.contains(flag(option.name@))
}

/// The candidate that stands for an option.
pub open spec fn option_candidate() -> spec_fn(CommandOption) -> Candidate {
    |option: CommandOption|
        Candidate { insert_text: flag(option.name@), display_text: option.help@ }
}

/// The option candidates, in declaration order.
pub open spec fn option_candidates(
    options: Seq<CommandOption>,
    tokens: Seq<Seq<char>>,
    input: Seq<char>,
) -> Seq<Candidate> {
    options.filter(offers_option(tokens, input)).map_values(option_candidate())
}

/// Holds of a command whose name begins with `prefix`.
pub open spec fn begins_with(prefix: Seq<char>) -> spec_fn(Command) -> bool {
    |command: Command| prefix.is_prefix_of(command.name@)
}

/// The candidate that stands for a top-level command.
pub open spec fn command_candidate() -> spec_fn(Command) -> Candidate {
    |command: Command| Candidate { insert_text: command.name@, display_text: command.help@ }
}

/// The top-level candidates for a first word that names no command.
pub open spec fn command_candidates(commands: Seq<Command>, prefix: Seq<char>) -> Seq<Candidate> {
    commands.filter(begins_with(prefix)).map_values(command_candidate())
}

/// The children of the innermost node that the words lead to below
/// `command`: those of the command itself where they lead to none.
pub open spec fn innermost_children(command: Command, tokens: Seq<Seq<char>>) -> Seq<SubCommand> {
    let chain = match_chain(command.sub_commands@, tokens);
    if chain.len() == 0 {
        command.sub_commands@
    } else {
        chain.last().sub_commands@
    }
}

/// The options of the innermost node that the words lead to below
/// `command`: those of the command itself where they lead to none.
pub open spec fn innermost_options(command: Command, tokens: Seq<Seq<char>>) -> Seq<CommandOption> {
    let chain = match_chain(command.sub_commands@, tokens);
    if chain.len() == 0 {
        command.options@
    } else {
        chain.last().options@
    }
}

/// The candidates for the text before the cursor. A first word that names
/// no command is completed to the commands that begin with it. Below a
/// command, the innermost node reached offers its children where it has
/// any, and its options otherwise.
pub open spec fn candidates_for(commands: Seq<Command>, input: Seq<char>) -> Seq<Candidate> {
    let tokens = match shlex_split(input) {
        Some(tokens) => tokens,
        None => Seq::empty(),
    };
    if tokens.len() == 0 {
        Seq::empty()
    } else {
        match first_index(commands, is_called(tokens[0])) {
            None => command_candidates(commands, tokens[0]),
            Some(i) => if innermost_children(commands[i], tokens).len() == 0 {
                option_candidates(innermost_options(commands[i], tokens), tokens, input)
            } else {
                subcommand_candidates(
                    innermost_children(commands[i], tokens),
                    Some(tokens.last()),
                    input,
                )
            },
        }
    }
}

/// The text before byte offset `pos` of a line, where `pos` falls between
/// two characters.
pub open spec fn text_before(line: Seq<char>, pos: int) -> Option<Seq<char>> {
    if is_char_boundary(encode_utf8(line), pos) {
        Some(decode_utf8(encode_utf8(line).subrange(0, pos)))
    } else {
        None
    }
}

/// The result of a completion at byte offset `pos`: the byte offset from
/// which a candidate replaces the text, and the candidates.
pub open spec fn completion(commands: Seq<Command>, line: Seq<char>, pos: int) -> (
    int,
    Seq<Candidate>,
) {
    match text_before(line, pos) {
        Some(input) => (
            utf8_len(input.take(word_start(input))) as int,
            candidates_for(commands, input),
        ),
        None => (0, Seq::empty()),
    }
}

fn last_char(chars: &[char]) -> (r: Option<char>)
    ensures
        match r {
            Some(c) => chars@.len() > 0 && c == chars@.last(),
            None => chars@.len() == 0,
        },
{
    if chars.len() == 0 {
        None
    } else {
        Some(chars[chars.len() - 1])
    }
}

fn ends_with_blank(chars: &[char]) -> (b: bool)
    ensures
        b == ends_blank(chars@),
{
    match last_char(chars) {
        Some(c) => is_whitespace(c),
        None => false,
    }
}

/// The text of the option `name` as it is typed on a line.
pub fn option_flag(name: &str) -> (r: String)
    ensures
        r@ == flag(name@),
{
    let r = String::from_str("--").concat(name);
    proof {
        reveal_strlit("--");
    }
    r
}

/// Whether `word` is one of `tokens`.
pub fn has_token(tokens: &[String], word: &String) -> (b: bool)
    ensures
        b == word_views(tokens@).contains(word@),
{
    let mut i: usize = 0;
    while i < tokens.len()
        invariant
            i <= tokens@.len(),
            forall|j: int| 0 <= j < i ==> word_views(tokens@)[j] != word@,
        decreases tokens@.len() - i,
    {
        if tokens[i] == *word {
            assert(word_views(tokens@)[i as int] == word@);
            return true;
        }
        i += 1;
    }
    false
}

/// The sub-commands to propose for the word being typed.
pub fn suggest_subcommands(subs: &[SubCommand], last_token: Option<&String>, input: &str) -> (r:
    Vec<SmartCandidate>)
    ensures
        candidate_views(r@) == subcommand_candidates(
            subs@,
            match last_token {
                Some(token) => Some(token@),
                None => None,
            },
            input@,
        ),
{
    let input_chars = chars_of(input);
    let blank = ends_with_blank(input_chars.as_slice());
    let token_chars: Option<Vec<char>> = match last_token {
        Some(token) => Some(chars_of(token.as_str())),
        None => None,
    };
    let ghost token_view: Option<Seq<char>> = match last_token {
        Some(token) => Some(token@),
        None => None,
    };
    let ghost offered = offers_subcommand(token_view, input@);
    let mut out: Vec<SmartCandidate> = Vec::new();
    let mut i: usize = 0;
    assert(candidate_views(out@) =~= subs@.take(0).filter(offered).map_values(
        subcommand_candidate(),
    )) by {
        reveal(Seq::filter);
    }
    while i < subs.len()
        invariant
            i <= subs@.len(),
            offered == offers_subcommand(token_view, input@),
            blank == ends_blank(input@),
            match token_chars {
                Some(chars) => token_view == Some(chars@),
                None => token_view is None,
            },
            candidate_views(out@) == subs@.take(i as int).filter(offered).map_values(
                subcommand_candidate(),
            ),
        decreases subs@.len() - i,
    {
        let node = &subs[i];
        let keep = blank || match &token_chars {
            Some(chars) => {
                let name_chars = chars_of(node.name.as_str());
                starts_with(name_chars.as_slice(), chars.as_slice())
            },
            None => true,
        };
        proof {
            lemma_filter_step(subs@, offered, i as int);
        }
        if keep {
            let candidate = SmartCandidate { word: node.name.clone(), desc: node.help };
            proof {
                assert(subs@.take(i as int).filter(offered).push(subs@[i as int]).map_values(
                    subcommand_candidate(),
                ) =~= subs@.take(i as int).filter(offered).map_values(
                    subcommand_candidate(),
                ).push(subcommand_candidate()(subs@[i as int])));
            }
            out.push(candidate);
        }
        i += 1;
    }
    assert(subs@.take(i as int) =~= subs@);
    out
}

/// The options to propose for the word being typed.
pub fn suggest_options(options: &[CommandOption], tokens: &[String], input: &str) -> (r: Vec<
    SmartCandidate,
>)
    ensures
        candidate_views(r@) == option_candidates(options@, word_views(tokens@), input@),
{
    let input_chars = chars_of(input);
    let last = last_char(input_chars.as_slice());
    let wide = match last {
        Some(c) => is_whitespace(c) || c == '-',
        None => false,
    } || tokens.len() == 0;
    let stem: Vec<char> = if tokens.len() == 0 {
        Vec::new()
    } else {
        chars_of(tokens[tokens.len() - 1].as_str())
    };
    let dashes = count_dashes(stem.as_slice());
    let ghost words = word_views(tokens@);
    let ghost offered = offers_option(words, input@);
    let mut out: Vec<SmartCandidate> = Vec::new();
    let mut i: usize = 0;
    assert(candidate_views(out@) =~= options@.take(0).filter(offered).map_values(
        option_candidate(),
    )) by {
        reveal(Seq::filter);
    }
    while i < options.len()
        invariant
            i <= options@.len(),
            words == word_views(tokens@),
            offered == offers_option(words, input@),
            wide == (ends_blank(input@) || ends_dash(input@) || tokens@.len() == 0),
            dashes <= stem@.len(),
            tokens@.len() > 0 ==> strip_dashes(words.last()) == stem@.skip(dashes as int),
            candidate_views(out@) == options@.take(i as int).filter(offered).map_values(
                option_candidate(),
            ),
        decreases options@.len() - i,
    {
        let option = &options[i];
        let selected = wide || {
            let name_chars = chars_of(option.name);
            starts_with(name_chars.as_slice(), &stem.as_slice()[dashes..stem.len()])
        };
        let word = option_flag(option.name);
        let keep = selected && !has_token(tokens, &word);
        proof {
            lemma_filter_step(options@, offered, i as int);
        }
        if keep {
            let candidate = SmartCandidate { word, desc: option.help };
            proof {
                assert(options@.take(i as int).filter(offered).push(options@[i as int]).map_values(
                    option_candidate(),
                ) =~= options@.take(i as int).filter(offered).map_values(option_candidate()).push(
                    option_candidate()(options@[i as int]),
                ));
            }
            out.push(candidate);
        }
        i += 1;
    }
    assert(options@.take(i as int) =~= options@);
    out
}

/// The top-level commands to propose for a first word that names none.
pub fn suggest_commands(commands: &[Command], prefix: &str) -> (r: Vec<SmartCandidate>)
    ensures
        candidate_views(r@) == command_candidates(commands@, prefix@),
{
    let prefix_chars = chars_of(prefix);
    let ghost offered = begins_with(prefix@);
    let mut out: Vec<SmartCandidate> = Vec::new();
    let mut i: usize = 0;
    assert(candidate_views(out@) =~= commands@.take(0).filter(offered).map_values(
        command_candidate(),
    )) by {
        reveal(Seq::filter);
    }
    while i < commands.len()
        invariant
            i <= commands@.len(),
            offered == begins_with(prefix@),
            prefix_chars@ == prefix@,
            candidate_views(out@) == commands@.take(i as int).filter(offered).map_values(
                command_candidate(),
            ),
        decreases commands@.len() - i,
    {
        let command = &commands[i];
        let name_chars = chars_of(command.name);
        let keep = starts_with(name_chars.as_slice(), prefix_chars.as_slice());
        proof {
            lemma_filter_step(commands@, offered, i as int);
        }
        if keep {
            let candidate = SmartCandidate {
                word: String::from_str(command.name),
                desc: command.help,
            };
            proof {
                assert(commands@.take(i as int).filter(offered).push(
                    commands@[i as int],
                ).map_values(command_candidate()) =~= commands@.take(i as int).filter(
                    offered,
                ).map_values(command_candidate()).push(command_candidate()(commands@[i as int])));
            }
            out.push(candidate);
        }
        i += 1;
    }
    assert(commands@.take(i as int) =~= commands@);
    out
}

impl CommandManager {
    /// The candidates for the text before the cursor. A text that cannot be
    /// split into words, or holds none, has no candidates.
    pub fn candidates(&self, input: &str) -> (r: Vec<SmartCandidate>)
        ensures
            candidate_views(r@) == candidates_for(self.commands@, input@),
    {
        let tokens = match tokenize(input) {
            Ok(tokens) => tokens,
            Err(_) => {
                return Vec::new();
            },
        };
        if tokens.len() == 0 {
            return Vec::new();
        }
        match self.find_command(tokens[0].as_str()) {
            None => suggest_commands(self.commands.as_slice(), tokens[0].as_str()),
            Some(i) => {
                let command = &self.commands[i];
                match find_deepest_subcommand(command.sub_commands.as_slice(), tokens.as_slice()) {
                    Some(node) => {
                        if node.sub_commands.len() == 0 {
                            suggest_options(node.options.as_slice(), tokens.as_slice(), input)
                        } else {
                            suggest_subcommands(
                                node.sub_commands.as_slice(),
                                Some(&tokens[tokens.len() - 1]),
                                input,
                            )
                        }
                    },
                    None => {
                        if command.sub_commands.len() == 0 {
                            suggest_options(command.options.as_slice(), tokens.as_slice(), input)
                        } else {
                            suggest_subcommands(
                                command.sub_commands.as_slice(),
                                Some(&tokens[tokens.len() - 1]),
                                input,
                            )
                        }
                    },
                }
            },
        }
    }

    /// Completes the line at byte offset `pos`. Gives the byte offset from
    /// which an accepted candidate replaces the text (just after the last
    /// whitespace before the cursor) and the candidates in declaration
    /// order. An offset that falls inside a character, or beyond the line,
    /// gives no candidates. The offset given is never behind the cursor and
    /// never inside a character, so that the text between it and the cursor
    /// can always be replaced.
    pub fn complete(&self, line: &str, pos: usize) -> (r: (usize, Vec<SmartCandidate>))
        ensures
            r.0 == completion(self.commands@, line@, pos as int).0,
            candidate_views(r.1@) == completion(self.commands@, line@, pos as int).1,
            r.0 <= pos,
            is_char_boundary(encode_utf8(line@), r.0 as int),
    {
        proof {
            encode_utf8_valid_utf8(line@);
        }
        if !line.is_char_boundary(pos) {
            return (0, Vec::new());
        }
        let (input, rest) = line.split_at(pos);
        let size = input.as_bytes().len();
        let chars = chars_of(input);
        let start = find_word_start(chars.as_slice());
        proof {
            encode_utf8_decode_utf8(input@);
            encode_utf8_decode_utf8(line@);
            encode_utf8_decode_utf8(input@ + rest@);
            lemma_encode_concat(input@, rest@);
            assert(encode_utf8(input@) + encode_utf8(rest@) =~= encode_utf8(line@));
            assert(line@ == input@ + rest@);
            assert(line@.take(start as int) =~= input@.take(start as int));
            lemma_prefix_ends_at_boundary(line@, start as int);
            lemma_utf8_len_take(input@, start as int);
            assert(utf8_len(input@) == size);
        }
        let offset = byte_offset(chars.as_slice(), start);
        (offset, self.candidates(input))
    }
}

/// Holds of an option that is not on the line already.
pub open spec fn is_absent(tokens: Seq<Seq<char>>) -> spec_fn(CommandOption) -> bool {
    |option: CommandOption| !tokens.contains(flag(option.name@))
}

/// After a trailing blank every child is proposed, whatever the words
/// before it are.
pub proof fn lemma_blank_offers_every_subcommand(
    subs: Seq<SubCommand>,
    last_token: Option<Seq<char>>,
    input: Seq<char>,
)
    requires
        ends_blank(input),
    ensures
        subcommand_candidates(subs, last_token, input) == subs.map_values(subcommand_candidate()),
{
    lemma_filter_all(subs, offers_subcommand(last_token, input));
}

/// A line that names a command, and ends in a blank, is completed to every
/// child of the innermost node that its words lead to, where that node has
/// children.
pub proof fn lemma_completion_after_blank(
    commands: Seq<Command>,
    input: Seq<char>,
    tokens: Seq<Seq<char>>,
    i: int,
)
    requires
        shlex_split(input) == Some(tokens),
        tokens.len() > 0,
        first_index(commands, is_called(tokens[0])) == Some(i),
        innermost_children(commands[i], tokens).len() > 0,
        ends_blank(input),
    ensures
        candidates_for(commands, input) == innermost_children(commands[i], tokens).map_values(
            subcommand_candidate(),
        ),
{
    lemma_blank_offers_every_subcommand(
        innermost_children(commands[i], tokens),
        Some(tokens.last()),
        input,
    );
}

/// Without a trailing blank the children proposed are those whose name
/// begins with the last word: every candidate begins with it, and every
/// child that begins with it is a candidate.
pub proof fn lemma_prefix_filters_subcommands(
    subs: Seq<SubCommand>,
    token: Seq<char>,
    input: Seq<char>,
)
    requires
        !ends_blank(input),
    ensures
        forall|i: int|
            0 <= i < subcommand_candidates(subs, Some(token), input).len() ==> token.is_prefix_of(
                (#[trigger] subcommand_candidates(subs, Some(token), input)[i]).insert_text,
            ),
        forall|j: int|
            0 <= j < subs.len() && token.is_prefix_of(subs[j].name@) ==> subcommand_candidates(
                subs,
                Some(token),
                input,
            ).contains(subcommand_candidate()(#[trigger] subs[j])),
        (forall|j: int| 0 <= j < subs.len() ==> !token.is_prefix_of(#[trigger] subs[j].name@))
            ==> subcommand_candidates(subs, Some(token), input).len() == 0,
{
    let offered = offers_subcommand(Some(token), input);
    let kept = subs.filter(offered);
    let cands = subcommand_candidates(subs, Some(token), input);
    lemma_filter_members(subs, offered);
    assert forall|i: int| 0 <= i < cands.len() implies token.is_prefix_of(
        (#[trigger] cands[i]).insert_text,
    ) by {
        assert(offered(kept[i]));
    }
    assert forall|j: int| 0 <= j < subs.len() && token.is_prefix_of(subs[j].name@) implies
        cands.contains(subcommand_candidate()(#[trigger] subs[j])) by {
        assert(offered(subs[j]));
        assert(kept.contains(subs[j]));
        let k = choose|k: int| 0 <= k < kept.len() && kept[k] == subs[j];
        assert(cands[k] == subcommand_candidate()(subs[j]));
    }
    if forall|j: int| 0 <= j < subs.len() ==> !token.is_prefix_of(#[trigger] subs[j].name@) {
        if cands.len() > 0 {
            assert(offered(kept[0]));
            assert(subs.contains(kept[0]));
            let k = choose|k: int| 0 <= k < subs.len() && subs[k] == kept[0];
            assert(!token.is_prefix_of(subs[k].name@));
        }
    }
}

/// No option that is on the line already is proposed again.
pub proof fn lemma_present_options_not_offered(
    options: Seq<CommandOption>,
    tokens: Seq<Seq<char>>,
    input: Seq<char>,
)
    ensures
        forall|i: int|
            0 <= i < option_candidates(options, tokens, input).len() ==> !tokens.contains(
                (#[trigger] option_candidates(options, tokens, input)[i]).insert_text,
            ),
{
    let offered = offers_option(tokens, input);
    lemma_filter_members(options, offered);
}

/// After a dash just typed, or a trailing blank, every option that is not
/// on the line already is proposed.
pub proof fn lemma_dash_offers_every_absent_option(
    options: Seq<CommandOption>,
    tokens: Seq<Seq<char>>,
    input: Seq<char>,
)
    requires
        ends_dash(input) || ends_blank(input),
    ensures
        option_candidates(options, tokens, input) == options.filter(is_absent(tokens)).map_values(
            option_candidate(),
        ),
{
    lemma_filter_same(options, offers_option(tokens, input), is_absent(tokens));
}

/// Candidates come in declaration order: of two sub-commands proposed, the
/// one proposed first is declared first.
pub proof fn lemma_subcommands_in_declaration_order(
    subs: Seq<SubCommand>,
    last_token: Option<Seq<char>>,
    input: Seq<char>,
)
    ensures
        forall|i: int, j: int|
            0 <= i < j < subcommand_candidates(subs, last_token, input).len() ==> comes_before(
                subs.map_values(subcommand_candidate()),
                #[trigger] subcommand_candidates(subs, last_token, input)[i],
                #[trigger] subcommand_candidates(subs, last_token, input)[j],
            ),
{
    let offered = offers_subcommand(last_token, input);
    let kept = subs.filter(offered);
    let all = subs.map_values(subcommand_candidate());
    lemma_filter_keeps_order(subs, offered);
    assert forall|i: int, j: int|
        0 <= i < j < subcommand_candidates(subs, last_token, input).len() implies comes_before(
        all,
        #[trigger] subcommand_candidates(subs, last_token, input)[i],
        #[trigger] subcommand_candidates(subs, last_token, input)[j],
    ) by {
        assert(comes_before(subs, kept[i], kept[j]));
        let (a, b) = choose|a: int, b: int|
            0 <= a < b < subs.len() && subs[a] == kept[i] && subs[b] == kept[j];
        assert(all[a] == subcommand_candidates(subs, last_token, input)[i]);
        assert(all[b] == subcommand_candidates(subs, last_token, input)[j]);
    }
}

/// Candidates come in declaration order: of two options proposed, the one
/// proposed first is declared first.
pub proof fn lemma_options_in_declaration_order(
    options: Seq<CommandOption>,
    tokens: Seq<Seq<char>>,
    input: Seq<char>,
)
    ensures
        forall|i: int, j: int|
            0 <= i < j < option_candidates(options, tokens, input).len() ==> comes_before(
                options.map_values(option_candidate()),
                #[trigger] option_candidates(options, tokens, input)[i],
                #[trigger] option_candidates(options, tokens, input)[j],
            ),
{
    let offered = offers_option(tokens, input);
    let kept = options.filter(offered);
    let all = options.map_values(option_candidate());
    lemma_filter_keeps_order(options, offered);
    assert forall|i: int, j: int|
        0 <= i < j < option_candidates(options, tokens, input).len() implies comes_before(
        all,
        #[trigger] option_candidates(options, tokens, input)[i],
        #[trigger] option_candidates(options, tokens, input)[j],
    ) by {
        assert(comes_before(options, kept[i], kept[j]));
        let (a, b) = choose|a: int, b: int|
            0 <= a < b < options.len() && options[a] == kept[i] && options[b] == kept[j];
        assert(all[a] == option_candidates(options, tokens, input)[i]);
        assert(all[b] == option_candidates(options, tokens, input)[j]);
    }
}

/// Completion never fails: a text that cannot be split into words, or that
/// holds none, has no candidates.
pub proof fn lemma_no_words_no_candidates(commands: Seq<Command>, input: Seq<char>)
    requires
        shlex_split(input) is None || shlex_split(input) == Some(Seq::<Seq<char>>::empty()),
    ensures
        candidates_for(commands, input).len() == 0,
{
}

} // verus!
