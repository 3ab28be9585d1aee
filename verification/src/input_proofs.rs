//! What holds of every split line: the shape of its stages, and that writing
//! a split line out again and splitting that gives the same split line.

use crate::input::{
    adjacent_pipes, command_tokens, is_operator_token, is_pipe, is_pipe_run, misplaced_pipe,
    operator_list,
    operator_of, parse_words, split_cmds_spec, split_operators_spec, stages_of, ParsedLine,
};
use crate::operators::{Mode, OptFind, Redirect};
use vstd::prelude::*;

verus! {

/// No pipe opens the words and no two pipes stand side by side.
pub open spec fn clean_prefix(words: Seq<Seq<char>>) -> bool {
    &&& words.len() > 0 ==> !is_pipe(words[0])
    &&& forall|i: int| 0 <= i < words.len() - 1 ==> !#[trigger] adjacent_pipes(words, i)
}

/// Every stage but the last holds a word.
pub open spec fn closed_stages_filled(stages: Seq<Seq<Seq<char>>>) -> bool {
    forall|k: int| 0 <= k < stages.len() - 1 ==> (#[trigger] stages[k]).len() > 0
}

/// The shape of the stages of any words: there is always a last stage, which
/// is empty just when the words are none or end in a pipe; the stages before
/// it are all filled just when no pipe opens the words and none follows
/// another; and no stage holds a pipe.
pub proof fn lemma_stages_shape(words: Seq<Seq<char>>)
    ensures
        stages_of(words).len() >= 1,
        stages_of(words).last().len() == 0 <==> (words.len() == 0 || is_pipe(words.last())),
        closed_stages_filled(stages_of(words)) <==> clean_prefix(words),
        forall|k: int, j: int|
            0 <= k < stages_of(words).len() && 0 <= j < stages_of(words)[k].len() ==> !is_pipe(
                #[trigger] stages_of(words)[k][j],
            ),
    decreases words.len(),
{
    let stages = stages_of(words);
    if words.len() > 0 {
        let shorter = words.drop_last();
        let before = stages_of(shorter);
        let x = words.last();
        lemma_stages_shape(shorter);
        assert forall|i: int| 0 <= i < shorter.len() implies shorter[i] == words[i] by {}
        assert forall|i: int| 0 <= i < shorter.len() - 1 implies adjacent_pipes(shorter, i)
            == adjacent_pipes(words, i) by {}
        if is_pipe(x) {
            assert(stages == before.push(Seq::empty()));
            assert forall|k: int| 0 <= k < before.len() implies stages[k] == before[k] by {}
            if closed_stages_filled(stages) {
                assert(stages[before.len() - 1].len() > 0);
                assert forall|k: int| 0 <= k < before.len() - 1 implies (#[trigger] before[k]).len()
                    > 0 by {
                    assert(stages[k].len() > 0);
                }
                assert(clean_prefix(shorter));
                assert forall|i: int| 0 <= i < words.len() - 1 implies !#[trigger] adjacent_pipes(
                    words,
                    i,
                ) by {
                    if i < shorter.len() - 1 {
                        assert(!adjacent_pipes(shorter, i));
                    }
                }
                assert(clean_prefix(words));
            }
            if clean_prefix(words) {
                assert(shorter.len() > 0);
                assert(!adjacent_pipes(words, shorter.len() - 1));
                assert forall|i: int| 0 <= i < shorter.len() - 1 implies !#[trigger] adjacent_pipes(
                    shorter,
                    i,
                ) by {
                    assert(!adjacent_pipes(words, i));
                }
                assert(clean_prefix(shorter));
                assert forall|k: int| 0 <= k < stages.len() - 1 implies (#[trigger] stages[k]).len()
                    > 0 by {
                    if k < before.len() - 1 {
                        assert(before[k].len() > 0);
                    }
                }
            }
        } else {
            let grown = before.last().push(x);
            assert(stages == before.drop_last().push(grown));
            assert forall|k: int| 0 <= k < before.len() - 1 implies stages[k] == before[k] by {}
            if closed_stages_filled(stages) {
                assert forall|k: int| 0 <= k < before.len() - 1 implies (#[trigger] before[k]).len()
                    > 0 by {
                    assert(stages[k].len() > 0);
                }
                assert(clean_prefix(shorter));
                assert forall|i: int| 0 <= i < words.len() - 1 implies !#[trigger] adjacent_pipes(
                    words,
                    i,
                ) by {
                    if i < shorter.len() - 1 {
                        assert(!adjacent_pipes(shorter, i));
                    }
                }
                assert(clean_prefix(words));
            }
            if clean_prefix(words) {
                assert forall|i: int| 0 <= i < shorter.len() - 1 implies !#[trigger] adjacent_pipes(
                    shorter,
                    i,
                ) by {
                    assert(!adjacent_pipes(words, i));
                }
                assert(clean_prefix(shorter));
                assert forall|k: int| 0 <= k < stages.len() - 1 implies (#[trigger] stages[k]).len()
                    > 0 by {
                    assert(before[k].len() > 0);
                }
            }
            assert forall|k: int, j: int|
                0 <= k < stages.len() && 0 <= j < stages[k].len() implies !is_pipe(
                #[trigger] stages[k][j],
            ) by {
                if k < before.len() - 1 {
                    assert(stages[k][j] == before[k][j]);
                } else if j < before.last().len() {
                    assert(stages[k][j] == before[before.len() - 1][j]);
                }
            }
        }
    }
}

/// Cutting at the pipes brings no word into a stage that was not among the
/// words: where none of them is `bad`, no word of a stage is.
pub proof fn lemma_stages_keep_words(words: Seq<Seq<char>>, bad: spec_fn(Seq<char>) -> bool)
    requires
        forall|i: int| 0 <= i < words.len() ==> !bad(#[trigger] words[i]),
    ensures
        forall|k: int, j: int|
            0 <= k < stages_of(words).len() && 0 <= j < stages_of(words)[k].len() ==> !bad(
                #[trigger] stages_of(words)[k][j],
            ),
    decreases words.len(),
{
    let stages = stages_of(words);
    if words.len() > 0 {
        let shorter = words.drop_last();
        let before = stages_of(shorter);
        assert forall|i: int| 0 <= i < shorter.len() implies !bad(#[trigger] shorter[i]) by {
            assert(shorter[i] == words[i]);
        }
        lemma_stages_keep_words(shorter, bad);
        lemma_stages_shape(shorter);
        assert(!bad(words[words.len() - 1]));
        assert forall|k: int, j: int|
            0 <= k < stages.len() && 0 <= j < stages[k].len() implies !bad(
            #[trigger] stages[k][j],
        ) by {
            if k < before.len() - 1 {
                assert(stages[k][j] == before[k][j]);
            } else if k == before.len() - 1 && j < before.last().len() {
                assert(stages[k][j] == before[before.len() - 1][j]);
            }
        }
    }
}

/// Once the operators are taken out, none of the words left is an operator.
pub proof fn lemma_command_tokens_without_operators(words: Seq<Seq<char>>)
    ensures
        forall|i: int|
            0 <= i < command_tokens(words).len() ==> !is_operator_token(
                #[trigger] command_tokens(words)[i],
            ),
    decreases words.len(),
{
    let left = command_tokens(words);
    if words.len() > 0 {
        if is_operator_token(words[0]) {
            if words.len() >= 2 {
                lemma_command_tokens_without_operators(words.skip(2));
                assert(left == command_tokens(words.skip(2)));
            } else {
                assert(left.len() == 0);
            }
        } else {
            let rest = command_tokens(words.skip(1));
            assert(left == seq![words[0]] + rest);
            lemma_command_tokens_without_operators(words.skip(1));
            assert forall|i: int| 0 <= i < left.len() implies !is_operator_token(
                #[trigger] left[i],
            ) by {
                if i > 0 {
                    assert(left[i] == rest[i - 1]);
                }
            }
        }
    }
}

/// Whatever words are split, the line that results is well formed: it has a
/// stage, no stage is empty, and no stage holds a pipe or an operator.
pub proof fn lemma_parse_words_wf(words: Seq<Seq<char>>)
    ensures
        parse_words(words) matches Ok(parsed) ==> parsed.wf(),
{
    if let Ok(parsed) = parse_words(words) {
        let cmds = command_tokens(words);
        lemma_command_tokens_without_operators(words);
        lemma_stages_shape(cmds);
        lemma_stages_keep_words(cmds, |word: Seq<char>| is_operator_token(word));
        lemma_stages_keep_words(cmds, |word: Seq<char>| is_pipe_run(word));
        let stages = stages_of(cmds);
        assert(parsed.stages == stages);
        assert(clean_prefix(cmds)) by {
            assert forall|i: int| 0 <= i < cmds.len() - 1 implies !#[trigger] adjacent_pipes(
                cmds,
                i,
            ) by {}
        }
        assert forall|k: int| 0 <= k < stages.len() implies (#[trigger] stages[k]).len() > 0 by {
            if k == stages.len() - 1 {
                assert(stages[k] == stages.last());
            }
        }
    }
}

/// The words of a pipeline: its stages with a pipe between each two.
pub open spec fn join_stages(stages: Seq<Seq<Seq<char>>>) -> Seq<Seq<char>>
    decreases stages.len(),
{
    if stages.len() == 0 {
        Seq::empty()
    } else if stages.len() == 1 {
        stages[0]
    } else {
        join_stages(stages.drop_last()).push("|"@) + stages.last()
    }
}

/// The operator word for a stream and a mode, in its short form.
pub open spec fn operator_word(stream: OptFind, mode: Mode) -> Seq<char> {
    match (stream, mode) {
        (OptFind::Stdout, Mode::Truncate) => ">"@,
        (OptFind::Stderr, Mode::Truncate) => "2>"@,
        (OptFind::Stdout, Mode::Append) => ">>"@,
        (OptFind::Stderr, Mode::Append) => "2>>"@,
    }
}

/// The words of a list of redirections: each as its operator and its file.
pub open spec fn operator_words(ops: Seq<Redirect>) -> Seq<Seq<char>>
    decreases ops.len(),
{
    if ops.len() == 0 {
        Seq::empty()
    } else {
        seq![operator_word(ops[0].stream, ops[0].mode), ops[0].file] + operator_words(ops.skip(1))
    }
}

/// A split line written out as words: the pipeline, then the redirections.
pub open spec fn words_of(parsed: ParsedLine) -> Seq<Seq<char>> {
    join_stages(parsed.stages) + operator_words(parsed.operators)
}

/// Cutting the words of a pipeline at the pipes gives its stages back.
pub proof fn lemma_stages_of_join(stages: Seq<Seq<Seq<char>>>)
    requires
        stages.len() >= 1,
        forall|k: int, j: int|
            0 <= k < stages.len() && 0 <= j < stages[k].len() ==> !is_pipe(#[trigger] stages[k][j]),
    ensures
        stages_of(join_stages(stages)) == stages,
    decreases stages.len(), stages.last().len(),
{
    let words = join_stages(stages);
    let n = stages.len() as int;
    if stages.last().len() > 0 {
        let x = stages.last().last();
        let less = stages.drop_last().push(stages.last().drop_last());
        assert(less.drop_last() =~= stages.drop_last());
        assert(less.last() == stages.last().drop_last());
        assert(!is_pipe(stages[n - 1][stages[n - 1].len() - 1]));
        assert forall|k: int, j: int|
            0 <= k < less.len() && 0 <= j < less[k].len() implies !is_pipe(
            #[trigger] less[k][j],
        ) by {
            assert(less[k][j] == stages[k][j]);
        }
        assert(stages.last().drop_last().push(x) =~= stages.last());
        assert(words =~= join_stages(less).push(x));
        assert(words.drop_last() =~= join_stages(less));
        assert(words.last() == x);
        lemma_stages_of_join(less);
        assert(stages_of(words) == less.drop_last().push(less.last().push(x)));
        assert(stages_of(words) =~= stages);
    } else if n == 1 {
        assert(stages[0] =~= Seq::<Seq<char>>::empty());
        assert(words.len() == 0);
        assert(stages_of(words) =~= stages);
    } else {
        let rest = stages.drop_last();
        assert forall|k: int, j: int|
            0 <= k < rest.len() && 0 <= j < rest[k].len() implies !is_pipe(
            #[trigger] rest[k][j],
        ) by {
            assert(rest[k][j] == stages[k][j]);
        }
        assert(stages.last() =~= Seq::<Seq<char>>::empty());
        assert(words =~= join_stages(rest).push("|"@));
        assert(words.drop_last() =~= join_stages(rest));
        assert(words.last() == "|"@);
        lemma_stages_of_join(rest);
        assert(stages_of(words) == rest.push(Seq::<Seq<char>>::empty()));
        assert(stages_of(words) =~= stages);
    }
}

/// Joining the stages of any words with pipes gives the words back.
pub proof fn lemma_join_of_stages(words: Seq<Seq<char>>)
    ensures
        join_stages(stages_of(words)) == words,
    decreases words.len(),
{
    if words.len() > 0 {
        let shorter = words.drop_last();
        let before = stages_of(shorter);
        let stages = stages_of(words);
        lemma_join_of_stages(shorter);
        lemma_stages_shape(shorter);
        if is_pipe(words.last()) {
            assert(words =~= shorter.push("|"@));
            assert(stages == before.push(Seq::<Seq<char>>::empty()));
            assert(stages.drop_last() =~= before);
            assert(join_stages(stages) == join_stages(before).push("|"@) + stages.last());
            assert(join_stages(stages) =~= words);
        } else {
            let grown = before.last().push(words.last());
            assert(words =~= shorter.push(words.last()));
            assert(stages == before.drop_last().push(grown));
            assert(stages.last() == grown);
            if before.len() > 1 {
                assert(stages.drop_last() =~= before.drop_last());
                assert(join_stages(stages) == join_stages(before.drop_last()).push("|"@) + grown);
                assert(shorter == join_stages(before.drop_last()).push("|"@) + before.last());
            } else {
                assert(join_stages(stages) == grown);
                assert(shorter == before[0]);
            }
            assert(join_stages(stages) =~= words);
        }
    }
}

/// Joining with pipes brings in no word but the pipe: where no word of a
/// stage is `bad`, nor the pipe, no word of the pipeline is.
pub proof fn lemma_join_keeps_words(
    stages: Seq<Seq<Seq<char>>>,
    bad: spec_fn(Seq<char>) -> bool,
)
    requires
        !bad("|"@),
        forall|k: int, j: int|
            0 <= k < stages.len() && 0 <= j < stages[k].len() ==> !bad(#[trigger] stages[k][j]),
    ensures
        forall|i: int| 0 <= i < join_stages(stages).len() ==> !bad(#[trigger] join_stages(stages)[i]),
    decreases stages.len(),
{
    let words = join_stages(stages);
    if stages.len() == 1 {
        assert forall|i: int| 0 <= i < words.len() implies !bad(#[trigger] words[i]) by {
            assert(words[i] == stages[0][i]);
        }
    } else if stages.len() > 1 {
        let rest = stages.drop_last();
        assert forall|k: int, j: int| 0 <= k < rest.len() && 0 <= j < rest[k].len() implies !bad(
            #[trigger] rest[k][j],
        ) by {
            assert(rest[k][j] == stages[k][j]);
        }
        lemma_join_keeps_words(rest, bad);
        let head = join_stages(rest);
        assert forall|i: int| 0 <= i < words.len() implies !bad(#[trigger] words[i]) by {
            if i < head.len() {
                assert(words[i] == head[i]);
            } else if i == head.len() {
                assert(words[i] == "|"@);
            } else {
                assert(words[i] == stages[stages.len() - 1][i - head.len() - 1]);
            }
        }
    }
}

/// The pipe is neither an operator nor a run of pipes.
pub proof fn lemma_pipe_is_plain()
    ensures
        !is_operator_token("|"@),
        !is_pipe_run("|"@),
{
    reveal_strlit("|");
    reveal_strlit(">");
    reveal_strlit("1>");
    reveal_strlit("2>");
    reveal_strlit(">>");
    reveal_strlit("1>>");
    reveal_strlit("2>>");
    assert("|"@[0] == '|');
    assert(">"@[0] == '>');
    assert("1>"@[0] == '1');
    assert("2>"@[0] == '2');
    assert(">>"@[0] == '>');
    assert("1>>"@[0] == '1');
    assert("2>>"@[0] == '2');
}

/// An operator word is read back as the stream and mode it was written for.
pub proof fn lemma_operator_word_read(stream: OptFind, mode: Mode, file: Seq<char>)
    ensures
        is_operator_token(operator_word(stream, mode)),
        operator_of(operator_word(stream, mode), file) == (Redirect { stream, mode, file }),
{
    reveal_strlit(">");
    reveal_strlit("1>");
    reveal_strlit("2>");
    reveal_strlit(">>");
    reveal_strlit("1>>");
    reveal_strlit("2>>");
    assert(">"@.len() == 1 && "1>"@.len() == 2 && "2>"@.len() == 2);
    assert(">>"@.len() == 2 && "1>>"@.len() == 3 && "2>>"@.len() == 3);
    assert(">>"@[0] == '>' && "1>"@[0] == '1' && "2>"@[0] == '2');
    assert("2>>"@[0] == '2' && "1>>"@[0] == '1');
}

/// The words of a list of redirections are read back as that list, and
/// nothing is left over.
pub proof fn lemma_operator_words_read(ops: Seq<Redirect>)
    ensures
        command_tokens(operator_words(ops)).len() == 0,
        operator_list(operator_words(ops)) == ops,
        operator_words(ops).len() == 2 * ops.len(),
        ops.len() > 0 ==> operator_words(ops).last() == ops.last().file,
    decreases ops.len(),
{
    let words = operator_words(ops);
    if ops.len() > 0 {
        let rest = ops.skip(1);
        lemma_operator_words_read(rest);
        lemma_operator_word_read(ops[0].stream, ops[0].mode, ops[0].file);
        assert(words.skip(2) =~= operator_words(rest));
        assert(words[0] == operator_word(ops[0].stream, ops[0].mode));
        assert(words[1] == ops[0].file);
        assert(operator_list(words) =~= ops);
        if rest.len() > 0 {
            assert(words.last() == operator_words(rest).last());
            assert(rest.last() == ops.last());
        }
    } else {
        assert(operator_list(words) =~= ops);
    }
}

/// Words that hold no operator pass through untouched, whatever follows.
pub proof fn lemma_plain_prefix(plain: Seq<Seq<char>>, rest: Seq<Seq<char>>)
    requires
        forall|i: int| 0 <= i < plain.len() ==> !is_operator_token(#[trigger] plain[i]),
    ensures
        command_tokens(plain + rest) == plain + command_tokens(rest),
        operator_list(plain + rest) == operator_list(rest),
    decreases plain.len(),
{
    let words = plain + rest;
    if plain.len() == 0 {
        assert(words =~= rest);
        assert(plain + command_tokens(rest) =~= command_tokens(rest));
    } else {
        let tail = plain.skip(1);
        assert(words[0] == plain[0]);
        assert(words.skip(1) =~= tail + rest);
        assert forall|i: int| 0 <= i < tail.len() implies !is_operator_token(#[trigger] tail[i]) by {
            assert(tail[i] == plain[i + 1]);
        }
        lemma_plain_prefix(tail, rest);
        assert(seq![plain[0]] + (tail + command_tokens(rest)) =~= plain + command_tokens(rest));
    }
}

/// Splitting is idempotent on what it gives: a well-formed split line,
/// written out as words and split again, is the same split line. The file
/// of the last redirection must not itself read as an operator, since a line
/// may not end in one.
pub proof fn lemma_split_is_idempotent(parsed: ParsedLine)
    requires
        parsed.wf(),
        parsed.operators.len() > 0 ==> !is_operator_token(parsed.operators.last().file),
    ensures
        parse_words(words_of(parsed)) == Ok::<ParsedLine, crate::input::InputSplitFail>(parsed),
{
    let stages = parsed.stages;
    let ops = parsed.operators;
    let pipeline = join_stages(stages);
    let tail = operator_words(ops);
    let words = words_of(parsed);
    lemma_stages_of_join(stages);
    lemma_stages_shape(pipeline);
    lemma_pipe_is_plain();
    lemma_join_keeps_words(stages, |word: Seq<char>| is_operator_token(word));
    lemma_join_keeps_words(stages, |word: Seq<char>| is_pipe_run(word));
    lemma_operator_words_read(ops);
    lemma_plain_prefix(pipeline, tail);
    assert(stages_of(pipeline).last() == stages[stages.len() - 1]);
    assert(closed_stages_filled(stages));
    assert(pipeline.len() > 0);
    assert(!is_operator_token(words.last())) by {
        if ops.len() == 0 {
            assert(words =~= pipeline);
            assert(!is_operator_token(pipeline[pipeline.len() - 1]));
        } else {
            assert(words.last() == tail.last());
        }
    }
    assert(command_tokens(tail) =~= Seq::<Seq<char>>::empty());
    assert(command_tokens(words) =~= pipeline);
    assert(operator_list(words) == ops);
    assert(split_operators_spec(words) == Ok::<_, crate::input::InputSplitFail>((pipeline, ops)));
    assert(!misplaced_pipe(pipeline));
    assert(split_cmds_spec(pipeline) == Ok::<_, crate::input::InputSplitFail>(stages));
}

/// What was split from words is split again, from its own words, into the
/// same: splitting twice gives no more than splitting once.
pub proof fn lemma_split_again(words: Seq<Seq<char>>)
    requires
        parse_words(words) is Ok,
        parse_words(words)->Ok_0.operators.len() > 0 ==> !is_operator_token(
            parse_words(words)->Ok_0.operators.last().file,
        ),
    ensures
        parse_words(words_of(parse_words(words)->Ok_0)) == parse_words(words),
{
    lemma_parse_words_wf(words);
    lemma_split_is_idempotent(parse_words(words)->Ok_0);
}

} // verus!
