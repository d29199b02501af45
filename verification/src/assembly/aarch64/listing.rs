//! The order in which a generated program is written out.

use crate::assembly::aarch64::inst::Instruction;
use crate::assembly::aarch64::{GeneratedFunction, GeneratedGlobal, GlobalData};
use vstd::prelude::*;

verus! {

/// The alignment of symbols, as a power of two.
pub const SYMBOL_ALIGN: u32 = 2;

/// A section of the object file.
#[derive(Debug, Clone, Copy, PartialEq, Eq, Structural)]
pub enum Section {
    Data,
    Text,
}

/// One step in writing out a program.
#[derive(Debug)]
pub enum Directive<'a> {
    Section(Section),
    Global(&'a String),
    Align(u32),
    Label(&'a String),
    Word(i64),
    Zero(i64),
    Newline,
    /// Whether the function that follows uses float registers.
    UsesFp(bool),
    /// The prologue of a function with a frame of that size.
    Prologue(i64),
    Insts(&'a Vec<Instruction>),
}

/// How a global is written out: its label, its words, and its zeros, if there
/// are any.
pub open spec fn global_lines<'a>(g: GeneratedGlobal) -> Seq<Directive<'a>> {
    seq![
        Directive::Global(&g.symbol),
        Directive::Align(SYMBOL_ALIGN),
        Directive::Label(&g.symbol),
    ] + match g.data {
        GlobalData::Word { value } => seq![Directive::Word(value)],
        GlobalData::Array { words, zero_bytes } => words@.map_values(
            |w: i64| Directive::Word(w),
        ) + zero_lines(zero_bytes),
    }
}

pub open spec fn zero_lines<'a>(zero_bytes: i64) -> Seq<Directive<'a>> {
    if zero_bytes > 0 {
        seq![Directive::Zero(zero_bytes)]
    } else {
        Seq::empty()
    }
}

/// How a function is written out.
pub open spec fn function_lines<'a>(f: GeneratedFunction) -> Seq<Directive<'a>> {
    seq![
        Directive::Global(&f.symbol),
        Directive::Align(SYMBOL_ALIGN),
        Directive::Label(&f.symbol),
        Directive::UsesFp(f.uses_fp),
        Directive::Prologue(f.frame_size),
        Directive::Insts(&f.insts),
        Directive::Newline,
    ]
}

/// How a list of globals is written out.
pub open spec fn globals_lines<'a>(globals: Seq<GeneratedGlobal>) -> Seq<Directive<'a>>
    decreases globals.len(),
{
    if globals.len() == 0 {
        Seq::empty()
    } else {
        globals_lines(globals.drop_last()) + global_lines(globals.last())
    }
}

/// How a list of functions is written out.
pub open spec fn functions_lines<'a>(functions: Seq<GeneratedFunction>) -> Seq<Directive<'a>>
    decreases functions.len(),
{
    if functions.len() == 0 {
        Seq::empty()
    } else {
        functions_lines(functions.drop_last()) + function_lines(functions.last())
    }
}

/// How the data section is written out; without globals there is none.
pub open spec fn data_section<'a>(globals: Seq<GeneratedGlobal>) -> Seq<Directive<'a>> {
    if globals.len() == 0 {
        Seq::empty()
    } else {
        seq![Directive::Section(Section::Data)] + globals_lines(globals) + seq![Directive::Newline]
    }
}

/// How the text section is written out.
pub open spec fn text_section<'a>(functions: Seq<GeneratedFunction>) -> Seq<Directive<'a>> {
    seq![Directive::Section(Section::Text)] + functions_lines(functions)
}

/// Appends the data section, if there are globals.
pub fn push_data_section<'a>(lines: &mut Vec<Directive<'a>>, globals: &'a Vec<GeneratedGlobal>)
    ensures
        final(lines)@ == old(lines)@ + data_section(globals@),
{
    let ghost start = lines@;
    if globals.len() > 0 {
        lines.push(Directive::Section(Section::Data));
        let ghost head = seq![Directive::Section(Section::Data)];
        let mut i: usize = 0;
        assert(globals@.take(0) =~= Seq::empty());
        while i < globals.len()
            invariant
                i <= globals@.len(),
                lines@ =~= start + head + globals_lines(globals@.take(i as int)),
            decreases globals@.len() - i,
        {
            assert(globals@.take(i + 1).drop_last() =~= globals@.take(i as int));
            push_global(lines, &globals[i]);
            i += 1;
        }
        assert(globals@.take(i as int) =~= globals@);
        lines.push(Directive::Newline);
    }
    assert(lines@ =~= start + data_section(globals@));
}

/// Appends one global.
fn push_global<'a>(lines: &mut Vec<Directive<'a>>, g: &'a GeneratedGlobal)
    ensures
        final(lines)@ == old(lines)@ + global_lines(*g),
{
    let ghost start = lines@;
    lines.push(Directive::Global(&g.symbol));
    lines.push(Directive::Align(SYMBOL_ALIGN));
    lines.push(Directive::Label(&g.symbol));
    let ghost labelled = lines@;
    match &g.data {
        GlobalData::Word { value } => {
            lines.push(Directive::Word(*value));
        },
        GlobalData::Array { words, zero_bytes } => {
            let mut i: usize = 0;
            let ghost all = words@.map_values(|w: i64| Directive::Word(w));
            while i < words.len()
                invariant
                    i <= words@.len(),
                    all == words@.map_values(|w: i64| Directive::<'a>::Word(w)),
                    lines@ =~= labelled + all.take(i as int),
                decreases words@.len() - i,
            {
                lines.push(Directive::Word(words[i]));
                i += 1;
            }
            if *zero_bytes > 0 {
                lines.push(Directive::Zero(*zero_bytes));
            }
        },
    }
    assert(lines@ =~= start + global_lines(*g));
}

/// Appends the text section.
pub fn push_text_section<'a>(lines: &mut Vec<Directive<'a>>, functions: &'a Vec<GeneratedFunction>)
    ensures
        final(lines)@ == old(lines)@ + text_section(functions@),
{
    let ghost start = lines@;
    lines.push(Directive::Section(Section::Text));
    let ghost head = seq![Directive::Section(Section::Text)];
    let mut i: usize = 0;
    assert(functions@.take(0) =~= Seq::empty());
    while i < functions.len()
        invariant
            i <= functions@.len(),
            lines@ =~= start + head + functions_lines(functions@.take(i as int)),
        decreases functions@.len() - i,
    {
        assert(functions@.take(i + 1).drop_last() =~= functions@.take(i as int));
        let f = &functions[i];
        lines.push(Directive::Global(&f.symbol));
        lines.push(Directive::Align(SYMBOL_ALIGN));
        lines.push(Directive::Label(&f.symbol));
        lines.push(Directive::UsesFp(f.uses_fp));
        lines.push(Directive::Prologue(f.frame_size));
        lines.push(Directive::Insts(&f.insts));
        lines.push(Directive::Newline);
        i += 1;
    }
    assert(functions@.take(i as int) =~= functions@);
    assert(lines@ =~= start + text_section(functions@));
}

/// The bytes of memory that a step writes out.
pub open spec fn bytes_of(d: Directive) -> int {
    match d {
        Directive::Word(_) => 4,
        Directive::Zero(n) => n as int,
        _ => 0,
    }
}

/// The bytes that the first `n` steps write out.
pub open spec fn bytes_before(lines: Seq<Directive>, n: int) -> int
    decreases n,
{
    if n <= 0 {
        0
    } else {
        bytes_before(lines, n - 1) + bytes_of(lines[n - 1])
    }
}

/// A global is written out as its symbol, made global and aligned to four bytes,
/// and behind the label of that symbol its contents: one word, or the words of
/// an array in their order, one step each, and then its zeros if it has any.
pub proof fn law_global_written(g: GeneratedGlobal)
    ensures
        ({
            let lines = global_lines(g);
            &&& lines[0] == Directive::Global(&g.symbol)
            &&& lines[1] == Directive::Align(2)
            &&& lines[2] == Directive::Label(&g.symbol)
            &&& match g.data {
                GlobalData::Word { value } => lines.len() == 4 && lines[3] == Directive::Word(
                    value,
                ),
                GlobalData::Array { words, zero_bytes } => {
                    let n = words@.len() as int;
                    &&& forall|k: int|
                        0 <= k < n ==> #[trigger] lines[3 + k] == Directive::Word(words@[k])
                    &&& if zero_bytes > 0 {
                        lines.len() == n + 4 && lines[n + 3] == Directive::Zero(zero_bytes)
                    } else {
                        lines.len() == n + 3
                    }
                },
            }
        }),
{
    if let GlobalData::Array { words, zero_bytes } = g.data {
        let lines = global_lines(g);
        let all = words@.map_values(|w: i64| Directive::Word(w));
        assert forall|k: int| 0 <= k < words@.len() implies #[trigger] lines[3 + k]
            == Directive::Word(words@[k]) by {
            assert((all + zero_lines(zero_bytes))[k] == all[k]);
        }
    }
}

/// In memory, word `k` of an array lies `4 * k` bytes behind the label of the
/// array, and the zeros, if there are any, begin behind the last word.
pub proof fn law_words_in_memory(g: GeneratedGlobal, k: int)
    requires
        g.data is Array,
        0 <= k <= g.data->words@.len(),
    ensures
        bytes_before(global_lines(g), 3 + k) == 4 * k,
        k < g.data->words@.len() ==> global_lines(g)[3 + k] == Directive::Word(g.data->words@[k]),
    decreases k,
{
    law_global_written(g);
    let lines = global_lines(g);
    if k > 0 {
        law_words_in_memory(g, k - 1);
        assert(lines[3 + (k - 1)] == Directive::Word(g.data->words@[k - 1]));
    } else {
        reveal_with_fuel(bytes_before, 4);
    }
}

/// A function is written out as its symbol, made global and aligned to four
/// bytes, and behind the label of that symbol its prologue, for the frame that
/// it has, and all its instructions.
pub proof fn law_function_written(f: GeneratedFunction)
    ensures
        ({
            let lines = function_lines(f);
            &&& lines.len() == 7
            &&& lines[0] == Directive::Global(&f.symbol)
            &&& lines[1] == Directive::Align(2)
            &&& lines[2] == Directive::Label(&f.symbol)
            &&& lines[3] == Directive::UsesFp(f.uses_fp)
            &&& lines[4] == Directive::Prologue(f.frame_size)
            &&& lines[5] == Directive::Insts(&f.insts)
            &&& lines[6] == Directive::Newline
        }),
{
}

/// The globals are written out in order, each directly behind the one before
/// it, and nothing else.
pub proof fn law_globals_in_order(globals: Seq<GeneratedGlobal>, i: int)
    requires
        0 <= i < globals.len(),
    ensures
        ({
            let lines = globals_lines(globals);
            let from = globals_lines(globals.take(i)).len() as int;
            let to = globals_lines(globals.take(i + 1)).len() as int;
            &&& to == from + global_lines(globals[i]).len()
            &&& to <= lines.len()
            &&& lines.subrange(from, to) == global_lines(globals[i])
            &&& i == 0 ==> from == 0
            &&& i == globals.len() - 1 ==> to == lines.len()
        }),
    decreases globals.len(),
{
    let lines = globals_lines(globals);
    let shorter = globals.drop_last();
    assert(globals.take(i + 1).drop_last() =~= globals.take(i));
    let from = globals_lines(globals.take(i)).len() as int;
    let to = globals_lines(globals.take(i + 1)).len() as int;
    if i < globals.len() - 1 {
        law_globals_in_order(shorter, i);
        assert(shorter.take(i) =~= globals.take(i));
        assert(shorter.take(i + 1) =~= globals.take(i + 1));
        assert(lines.subrange(from, to) =~= globals_lines(shorter).subrange(from, to));
    } else {
        assert(globals.take(i + 1) =~= globals);
        assert(globals.take(i) =~= shorter);
        assert(lines.subrange(from, to) =~= global_lines(globals[i]));
    }
}

/// The functions are written out in order, each directly behind the one before
/// it, and nothing else.
pub proof fn law_functions_in_order(functions: Seq<GeneratedFunction>, i: int)
    requires
        0 <= i < functions.len(),
    ensures
        ({
            let lines = functions_lines(functions);
            let from = 7 * i;
            &&& lines.len() == 7 * functions.len()
            &&& lines.subrange(from, from + 7) == function_lines(functions[i])
        }),
    decreases functions.len(),
{
    let lines = functions_lines(functions);
    let shorter = functions.drop_last();
    if i < functions.len() - 1 {
        law_functions_in_order(shorter, i);
        assert(lines.subrange(7 * i, 7 * i + 7) =~= functions_lines(shorter).subrange(
            7 * i,
            7 * i + 7,
        ));
    } else {
        if shorter.len() > 0 {
            law_functions_in_order(shorter, 0);
        }
        let before = functions_lines(shorter);
        assert(before.len() == 7 * i);
        assert(functions.last() == functions[i]);
        assert(lines == before + function_lines(functions[i]));
        assert(lines.subrange(7 * i, 7 * i + 7) =~= function_lines(functions[i]));
    }
}

/// The data section is there exactly if there are globals; it holds them all,
/// and an empty line behind them.  The text section is always there, and holds
/// the functions.
pub proof fn law_sections(globals: Seq<GeneratedGlobal>, functions: Seq<GeneratedFunction>)
    ensures
        ({
            let data = data_section(globals);
            let text = text_section(functions);
            &&& globals.len() == 0 ==> data.len() == 0
            &&& globals.len() > 0 ==> {
                &&& data[0] == Directive::Section(Section::Data)
                &&& data.subrange(1, data.len() - 1) == globals_lines(globals)
                &&& data.last() == Directive::Newline
                &&& data.len() == globals_lines(globals).len() + 2
            }
            &&& text[0] == Directive::Section(Section::Text)
            &&& text.skip(1) == functions_lines(functions)
        }),
{
    let data = data_section(globals);
    let text = text_section(functions);
    if globals.len() > 0 {
        assert(data.subrange(1, data.len() - 1) =~= globals_lines(globals));
    }
    assert(text.skip(1) =~= functions_lines(functions));
}

} // verus!
