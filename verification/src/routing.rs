//! Prompt routing: which model serves a prompt, which worker action
//! reaches it, and how the final prompt text is assembled.
//!
//! These are the decisions of the application's prompt entry point; the
//! calls they sit between — persistence, search, the worker, the
//! completion API — belong to the application layer.
use vstd::prelude::*;
use vstd::string::StringExecFns;

verus! {

use crate::policy::str_eq;
use crate::rag::DocumentChunk;
use crate::wire::push_char;

/// The character of one decimal digit.
pub open spec fn spec_digit(d: int) -> char {
    if d == 0 { '0' } else if d == 1 { '1' } else if d == 2 { '2' } else if d == 3 { '3' }
    else if d == 4 { '4' } else if d == 5 { '5' } else if d == 6 { '6' } else if d == 7 { '7' }
    else if d == 8 { '8' } else { '9' }
}

/// The decimal notation of a number, most significant digit first.
pub open spec fn spec_decimal(n: int) -> Seq<char>
    decreases n,
{
    if n < 10 {
        seq![spec_digit(n)]
    } else {
        spec_decimal(n / 10) + seq![spec_digit(n % 10)]
    }
}

/// The character of one decimal digit.
fn dec_digit(d: u64) -> (c: char)
    requires
        d < 10,
    ensures
        c == spec_digit(d as int),
{
    if d == 0 { '0' } else if d == 1 { '1' } else if d == 2 { '2' } else if d == 3 { '3' }
    else if d == 4 { '4' } else if d == 5 { '5' } else if d == 6 { '6' } else if d == 7 { '7' }
    else if d == 8 { '8' } else { '9' }
}

/// Writes a number in decimal.
pub fn u64_to_string(n: u64) -> (r: String)
    ensures
        r@ == spec_decimal(n as int),
    decreases n,
{
    if n < 10 {
        let mut s = String::new();
        push_char(&mut s, dec_digit(n));
        proof {
            assert(s@ =~= spec_decimal(n as int));
        }
        s
    } else {
        let mut s = u64_to_string(n / 10);
        push_char(&mut s, dec_digit(n % 10));
        s
    }
}

/// The model that serves a prompt. `auto` prefers the local model for
/// short prompts when it is loaded, and falls back to the default cloud
/// model; any other request names the model directly.
pub open spec fn spec_select_model(
    requested: Seq<char>,
    local_loaded: bool,
    prompt_len: nat,
) -> Seq<char> {
    if requested == "auto"@ {
        if local_loaded && prompt_len < 150 {
            "local_phi2"@
        } else {
            "cloud_deepseek"@
        }
    } else {
        requested
    }
}

/// Picks the model that serves a prompt of `prompt_len` bytes.
pub fn select_model(requested: &str, local_loaded: bool, prompt_len: usize) -> (m: String)
    ensures
        m@ == spec_select_model(requested@, local_loaded, prompt_len as nat),
{
    if str_eq(requested, "auto") {
        if local_loaded && prompt_len < 150 {
            String::from_str("local_phi2")
        } else {
            String::from_str("cloud_deepseek")
        }
    } else {
        String::from_str(requested)
    }
}

/// The worker action that carries a chat prompt to a given model.
/// Unknown models fall back to the default cloud model's action.
pub open spec fn spec_action_for_model(model: Seq<char>) -> Seq<char> {
    if model == "chatgpt"@ {
        "chat_chatgpt"@
    } else if model == "cloud_glm"@ {
        "chat_glm"@
    } else if model == "cloud_kimi"@ {
        "chat_kimi"@
    } else {
        "chat_deepseek"@
    }
}

/// Maps a model to the worker action that reaches it.
pub fn action_for_model(model: &str) -> (a: &'static str)
    ensures
        a@ == spec_action_for_model(model@),
{
    if str_eq(model, "chatgpt") {
        "chat_chatgpt"
    } else if str_eq(model, "cloud_glm") {
        "chat_glm"
    } else if str_eq(model, "cloud_kimi") {
        "chat_kimi"
    } else {
        "chat_deepseek"
    }
}

/// The line one retrieved chunk contributes to the context block: its
/// one-based rank, its source file and its text.
pub open spec fn spec_context_entry(rank: int, chunk: DocumentChunk) -> Seq<char> {
    "["@ + spec_decimal(rank) + "] (from "@ + chunk.filename@ + "): "@ + chunk.content@
        + seq!['\n']
}

/// The lines of the first `n` retrieved chunks, ranked from one.
pub open spec fn spec_context_entries(chunks: Seq<DocumentChunk>, n: int) -> Seq<char>
    decreases n,
{
    if n <= 0 {
        Seq::empty()
    } else {
        spec_context_entries(chunks, n - 1) + spec_context_entry(n, chunks[n - 1])
    }
}

/// The retrieved-context block prepended to a prompt: empty when nothing
/// was retrieved, else a header, one line per chunk in rank order, and a
/// blank separator.
pub open spec fn spec_context_block(chunks: Seq<DocumentChunk>) -> Seq<char> {
    if chunks.len() == 0 {
        Seq::empty()
    } else {
        "\n\nContexto Recuperado (RAG):\n"@ + spec_context_entries(chunks, chunks.len() as int)
            + "\n\n"@
    }
}

/// Renders the retrieved chunks as the context block of a prompt.
pub fn format_context(results: &Vec<DocumentChunk>) -> (r: String)
    ensures
        r@ == spec_context_block(results@),
{
    let mut out = String::new();
    let n = results.len();
    if n == 0 {
        proof {
            assert(out@ =~= spec_context_block(results@));
        }
        return out;
    }
    out.append("\n\nContexto Recuperado (RAG):\n");
    let mut i: usize = 0;
    while i < n
        invariant
            n == results@.len(),
            i <= n,
            out@ == "\n\nContexto Recuperado (RAG):\n"@ + spec_context_entries(
                results@,
                i as int,
            ),
        decreases n - i,
    {
        let rank = u64_to_string(i as u64 + 1);
        out.append("[");
        out.append(rank.as_str());
        out.append("] (from ");
        out.append(results[i].filename.as_str());
        out.append("): ");
        out.append(results[i].content.as_str());
        push_char(&mut out, '\n');
        proof {
            assert(out@ =~= "\n\nContexto Recuperado (RAG):\n"@ + spec_context_entries(
                results@,
                i as int + 1,
            ));
        }
        i += 1;
    }
    out.append("\n\n");
    proof {
        assert(out@ =~= spec_context_block(results@));
    }
    out
}

/// The final prompt text: retrieved context, if any, comes first, then the
/// user's prompt; a system prompt, when present, wraps the whole under an
/// instruction header.
pub open spec fn spec_compose_prompt(
    system_prompt: Option<Seq<char>>,
    context: Seq<char>,
    prompt: Seq<char>,
) -> Seq<char> {
    match system_prompt {
        Option::None => context + prompt,
        Option::Some(s) => "Instrucciones del Sistema:\n"@ + s + "\n\nUsuario:\n"@ + context
            + prompt,
    }
}

/// Assembles the final prompt text from its parts.
pub fn compose_prompt(system_prompt: Option<&str>, context: &str, prompt: &str) -> (r: String)
    ensures
        r@ == spec_compose_prompt(
            match system_prompt {
                Option::Some(s) => Option::Some(s@),
                Option::None => Option::None,
            },
            context@,
            prompt@,
        ),
{
    let mut out = String::new();
    if let Option::Some(s) = system_prompt {
        out.append("Instrucciones del Sistema:\n");
        out.append(s);
        out.append("\n\nUsuario:\n");
    }
    out.append(context);
    out.append(prompt);
    out
}

/// The application's greeting, word for word.
pub fn greet(name: &str) -> (r: String)
    ensures
        r@ == "Hello, "@ + name@ + "! You've been greeted from Rust!"@,
{
    let mut out = String::new();
    out.append("Hello, ");
    out.append(name);
    out.append("! You've been greeted from Rust!");
    out
}

} // verus!
