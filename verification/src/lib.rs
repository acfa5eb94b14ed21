//! Turns the trace of a fuzzing run into test functions that replay the call
//! sequences by which properties were broken.

pub mod amount;
pub mod ast;
pub mod contract_writer;
pub mod counter;
pub mod decimal;
pub mod emitter;
pub mod error;
pub mod json;
pub mod laws;
pub mod parser;
pub mod reader;
pub mod text;
pub mod trace;
pub mod types;

use crate::ast::{texts, views, AstView};
use crate::emitter::{render, Emitter};
use crate::error::{InputError, ReadError};
use crate::parser::ParserView;
use crate::reader::{first_error, replay, Reader};
use vstd::prelude::*;
use vstd::string::StringExecFns;

verus! {

/// The text of the reproducers: the text of each, in order, each followed by
/// a line break.
pub open spec fn output_text(roots: Seq<AstView>) -> Seq<char>
    decreases roots.len(),
{
    if roots.len() == 0 {
        Seq::empty()
    } else {
        output_text(roots.drop_last()) + render(roots.last()) + "\n"@
    }
}

/// Reads a trace, line by line, and writes a test function for every
/// reproducer it holds. The first line that fails ends the run: no text is
/// given, and the error holds the error of reading, which holds that of the
/// line.
pub fn process_input(lines: Vec<String>) -> (r: Result<String, InputError>)
    ensures
        match first_error(ParserView::initial(), texts(lines@)) {
            Some(e) => r == Err::<String, InputError>(
                (InputError { cause: (ReadError { cause: e }) }),
            ),
            None => r matches Ok(text) && text@ == output_text(
                replay(ParserView::initial(), texts(lines@)).reproducers,
            ),
        },
{
    let reader = Reader::new(lines);
    let ast = match reader.parse() {
        Ok(ast) => ast,
        Err(e) => {
            return Err(InputError { cause: e });
        },
    };
    let mut output = String::new();
    if let Some(ast_to_emit) = ast {
        let ghost roots = views(ast_to_emit@);
        let mut i: usize = 0;
        assert(roots.take(0) == Seq::<AstView>::empty());
        while i < ast_to_emit.len()
            invariant
                i <= ast_to_emit.len(),
                roots == views(ast_to_emit@),
                output@ == output_text(roots.take(i as int)),
            decreases ast_to_emit.len() - i,
        {
            proof {
                assert(roots.take(i + 1).drop_last() == roots.take(i as int));
                assert(roots.take(i + 1).last() == ast_to_emit@[i as int]@);
            }
            let mut emitter = Emitter::new();
            let _ = emitter.emit(&ast_to_emit[i]);
            let emitted = emitter.get_emitted();
            assert(emitted@ == render(ast_to_emit@[i as int]@));
            output.append(emitted.as_str());
            output.append("\n");
            i += 1;
        }
        assert(roots.take(i as int) == roots);
    }
    Ok(output)
}

} // verus!

