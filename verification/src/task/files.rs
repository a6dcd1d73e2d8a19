//! Small decisions about files and what is written to them.
use vstd::prelude::*;

use crate::task::paths::LABEL;
use crate::text::characters;
use crate::text::decimal;
use crate::text::escaped;
use crate::text::natural;
use crate::text::starts;
use crate::text::xml;

verus! {

#[verifier::external_type_specification]
#[verifier::external_body]
pub struct ExIoError(std::io::Error);

/// The kind of an error, as `std::io::Error::kind` tells it, is `NotFound`.
pub uninterp spec fn not_found(error: std::io::Error) -> bool;

/// `std::io::Error::kind` tells the kind of an error; here, whether that is
/// `NotFound`.
#[verifier::external_body]
fn is_not_found(error: &std::io::Error) -> (r: bool)
    ensures
        r == not_found(*error),
{
    error.kind() == std::io::ErrorKind::NotFound
}

/// Takes the result of a removal: that there was nothing to remove is no error.
pub fn ignore_missing(result: std::io::Result<()>) -> (r: std::io::Result<()>)
    ensures
        r == match result {
            Ok(_) => Ok(()),
            Err(error) => if not_found(error) {
                Ok(())
            } else {
                Err(error)
            },
        },
{
    match result {
        Ok(_) => Ok(()),
        Err(error) => if is_not_found(&error) {
            Ok(())
        } else {
            Err(error)
        },
    }
}

/// The name of a staging directory, given the number of the process and the
/// nanoseconds since the epoch.
pub fn staging_name(process: u32, nonce: u128) -> (r: String)
    ensures
        r@ == ".MacWindowResizer-"@ + decimal(process as int) + "-"@ + decimal(nonce as int),
{
    let mut out = ".MacWindowResizer-".to_owned();
    out.append(natural(process as u128).as_str());
    out.append("-");
    out.append(natural(nonce).as_str());
    out
}

/// The identity, as bytes, that stands for signing without one: a hyphen.
pub open spec fn ad_hoc() -> Seq<u8> {
    seq![0x2du8]
}

/// The identity to sign with, given the one that the environment names. One
/// that is empty counts as none.
pub open spec fn chosen_identity(named: Option<Seq<u8>>) -> Seq<u8> {
    match named {
        Some(identity) => if identity.len() > 0 {
            identity
        } else {
            ad_hoc()
        },
        None => ad_hoc(),
    }
}

/// The bytes, if there are any.
pub open spec fn bytes(named: Option<Vec<u8>>) -> Option<Seq<u8>> {
    match named {
        Some(identity) => Some(identity@),
        None => None,
    }
}

/// The identity to sign with, given the one that the environment names, which
/// need not be text.
pub fn signing_identity(named: Option<Vec<u8>>) -> (r: Vec<u8>)
    ensures
        r@ == chosen_identity(bytes(named)),
{
    match named {
        Some(identity) => if identity.len() > 0 {
            identity
        } else {
            vec![0x2du8]
        },
        None => vec![0x2du8],
    }
}

/// Tells whether signing with the identity is signing without one.
pub fn is_ad_hoc(identity: &Vec<u8>) -> (r: bool)
    ensures
        r == (identity@ == ad_hoc()),
{
    proof {
        assert(identity@.len() == 1 && identity@[0] == 0x2du8 ==> identity@ =~= ad_hoc());
    }
    identity.len() == 1 && identity[0] == 0x2du8
}

/// The template with its placeholders filled in. Doubled braces stand for one.
pub open spec fn filled(
    template: Seq<char>,
    label: Seq<char>,
    executable: Seq<char>,
    log: Seq<char>,
) -> Seq<char>
    decreases template.len(),
{
    if template.len() == 0 {
        seq![]
    } else if template.len() >= 2 && template[0] == template[1] && (template[0] == '{'
        || template[0] == '}') {
        seq![template[0]] + filled(template.skip(2), label, executable, log)
    } else if starts(template, seq!['{', 'L', 'A', 'B', 'E', 'L', '}']) {
        label + filled(template.skip(7), label, executable, log)
    } else if starts(
        template,
        seq!['{', 'e', 'x', 'e', 'c', 'u', 't', 'a', 'b', 'l', 'e', '}'],
    ) {
        executable + filled(template.skip(12), label, executable, log)
    } else if starts(template, seq!['{', 'l', 'o', 'g', '}']) {
        log + filled(template.skip(5), label, executable, log)
    } else {
        seq![template[0]] + filled(template.skip(1), label, executable, log)
    }
}

proof fn lemma_placeholders()
    ensures
        "{LABEL}"@ == seq!['{', 'L', 'A', 'B', 'E', 'L', '}'],
        "{executable}"@ == seq!['{', 'e', 'x', 'e', 'c', 'u', 't', 'a', 'b', 'l', 'e', '}'],
        "{log}"@ == seq!['{', 'l', 'o', 'g', '}'],
{
    reveal_strlit("{LABEL}");
    reveal_strlit("{executable}");
    reveal_strlit("{log}");
    assert("{LABEL}"@ =~= seq!['{', 'L', 'A', 'B', 'E', 'L', '}']);
    assert("{executable}"@ =~= seq!['{', 'e', 'x', 'e', 'c', 'u', 't', 'a', 'b', 'l', 'e', '}']);
    assert("{log}"@ =~= seq!['{', 'l', 'o', 'g', '}']);
}

fn starts_at(all: &Vec<char>, from: usize, pattern: &str) -> (r: bool)
    requires
        from <= all@.len(),
    ensures
        r == starts(all@.skip(from as int), pattern@),
{
    let wanted = characters(pattern);
    let ghost rest = all@.skip(from as int);
    if all.len() - from < wanted.len() {
        return false;
    }
    let mut i: usize = 0;
    while i < wanted.len()
        invariant
            i <= wanted@.len(),
            wanted@ == pattern@,
            from + wanted@.len() <= all.len(),
            rest == all@.skip(from as int),
            forall|j: int| 0 <= j < i ==> rest[j] == wanted@[j],
        decreases wanted@.len() - i,
    {
        if all[from + i] != wanted[i] {
            assert(rest.take(wanted@.len() as int)[i as int] != pattern@[i as int]);
            return false;
        }
        i += 1;
    }
    assert(rest.take(wanted@.len() as int) =~= pattern@);
    true
}

/// Writes the property list of the login service by its template, for an
/// executable and a log file.
pub fn agent_list(template: &str, executable: &str, log: &str) -> (r: String)
    ensures
        r@ == filled(template@, LABEL@, escaped(executable@), escaped(log@)),
{
    let all = characters(template);
    let program = xml(executable);
    let file = xml(log);
    let mut out = String::new();
    let mut i: usize = 0;
    proof {
        assert(all@.skip(0) =~= all@);
        assert(out@ + filled(template@, LABEL@, program@, file@) =~= filled(
            template@,
            LABEL@,
            program@,
            file@,
        ));
    }
    while i < all.len()
        invariant
            i <= all@.len(),
            all@ == template@,
            filled(template@, LABEL@, program@, file@) == out@ + filled(
                all@.skip(i as int),
                LABEL@,
                program@,
                file@,
            ),
        decreases all@.len() - i,
    {
        proof {
            lemma_placeholders();
        }
        let ghost rest = all@.skip(i as int);
        let ghost before = out@;
        let c = all[i];
        let step: usize;
        let ghost part: Seq<char>;
        if i + 1 < all.len() && c == all[i + 1] && (c == '{' || c == '}') {
            out.push(c);
            step = 2;
            proof {
                part = seq![c];
            }
        } else if starts_at(&all, i, "{LABEL}") {
            out.append(LABEL);
            step = 7;
            proof {
                part = LABEL@;
            }
        } else if starts_at(&all, i, "{executable}") {
            out.append(program.as_str());
            step = 12;
            proof {
                part = program@;
            }
        } else if starts_at(&all, i, "{log}") {
            out.append(file.as_str());
            step = 5;
            proof {
                part = file@;
            }
        } else {
            out.push(c);
            step = 1;
            proof {
                part = seq![c];
            }
        }
        assert(out@ =~= before + part);
        assert(rest.skip(step as int) =~= all@.skip(i + step));
        let ghost later = filled(all@.skip(i + step), LABEL@, program@, file@);
        assert(filled(rest, LABEL@, program@, file@) == part + later);
        assert(before + (part + later) =~= out@ + later);
        i = i + step;
    }
    assert(out@ + filled(all@.skip(i as int), LABEL@, program@, file@) =~= out@);
    out
}

/// The text holds no brace.
pub open spec fn without_braces(text: Seq<char>) -> bool {
    forall|i: int| 0 <= i < text.len() ==> #[trigger] text[i] != '{' && text[i] != '}'
}

/// A text without braces stays as it is, whatever follows it.
pub proof fn law_text_stays(
    text: Seq<char>,
    rest: Seq<char>,
    label: Seq<char>,
    executable: Seq<char>,
    log: Seq<char>,
)
    requires
        without_braces(text),
    ensures
        filled(text + rest, label, executable, log) == text + filled(rest, label, executable, log),
        filled(text, label, executable, log) == text,
    decreases text.len(),
{
    if text.len() == 0 {
        assert(text + rest =~= rest);
        assert(text + filled(rest, label, executable, log) =~= filled(
            rest,
            label,
            executable,
            log,
        ));
        assert(text =~= seq![]);
    } else {
        let all = text + rest;
        let tail = text.skip(1);
        assert(text[0] != '{' && text[0] != '}');
        assert forall|i: int| 0 <= i < tail.len() implies #[trigger] tail[i] != '{' && tail[i]
            != '}' by {
            assert(tail[i] == text[i + 1]);
        }
        law_text_stays(tail, rest, label, executable, log);
        assert(all.skip(1) =~= tail + rest);
        assert(all[0] == text[0]);
        lemma_no_placeholder(all);
        lemma_no_placeholder(text);
        assert(text =~= seq![text[0]] + tail);
        assert(seq![text[0]] + (tail + filled(rest, label, executable, log)) =~= text + filled(
            rest,
            label,
            executable,
            log,
        ));
    }
}

proof fn lemma_no_placeholder(text: Seq<char>)
    requires
        text.len() > 0,
        text[0] != '{',
    ensures
        !starts(text, seq!['{', 'L', 'A', 'B', 'E', 'L', '}']),
        !starts(text, seq!['{', 'e', 'x', 'e', 'c', 'u', 't', 'a', 'b', 'l', 'e', '}']),
        !starts(text, seq!['{', 'l', 'o', 'g', '}']),
{
    let label = seq!['{', 'L', 'A', 'B', 'E', 'L', '}'];
    let executable = seq!['{', 'e', 'x', 'e', 'c', 'u', 't', 'a', 'b', 'l', 'e', '}'];
    let log = seq!['{', 'l', 'o', 'g', '}'];
    assert(starts(text, label) ==> text.take(7)[0] == label[0]);
    assert(starts(text, executable) ==> text.take(12)[0] == executable[0]);
    assert(starts(text, log) ==> text.take(5)[0] == log[0]);
}

/// Each placeholder is filled in with its value, whatever follows it, and doubled
/// braces become one.
pub proof fn law_placeholders_are_filled_in(
    rest: Seq<char>,
    label: Seq<char>,
    executable: Seq<char>,
    log: Seq<char>,
)
    ensures
        filled("{LABEL}"@ + rest, label, executable, log) == label + filled(
            rest,
            label,
            executable,
            log,
        ),
        filled("{executable}"@ + rest, label, executable, log) == executable + filled(
            rest,
            label,
            executable,
            log,
        ),
        filled("{log}"@ + rest, label, executable, log) == log + filled(
            rest,
            label,
            executable,
            log,
        ),
        filled(seq!['{', '{'] + rest, label, executable, log) == seq!['{'] + filled(
            rest,
            label,
            executable,
            log,
        ),
        filled(seq!['}', '}'] + rest, label, executable, log) == seq!['}'] + filled(
            rest,
            label,
            executable,
            log,
        ),
{
    lemma_placeholders();
    let a = "{LABEL}"@ + rest;
    assert(a.take(7) =~= "{LABEL}"@);
    assert(a.skip(7) =~= rest);
    let b = "{executable}"@ + rest;
    assert(b.take(12) =~= "{executable}"@);
    assert(b.skip(12) =~= rest);
    assert(starts(b, seq!['{', 'L', 'A', 'B', 'E', 'L', '}']) ==> b.take(7)[1] == 'L');
    let c = "{log}"@ + rest;
    assert(c.take(5) =~= "{log}"@);
    assert(c.skip(5) =~= rest);
    assert(starts(c, seq!['{', 'L', 'A', 'B', 'E', 'L', '}']) ==> c.take(7)[1] == 'L');
    assert(starts(
        c,
        seq!['{', 'e', 'x', 'e', 'c', 'u', 't', 'a', 'b', 'l', 'e', '}'],
    ) ==> c.take(12)[1] == 'e');
    let d = seq!['{', '{'] + rest;
    assert(d.skip(2) =~= rest);
    let e = seq!['}', '}'] + rest;
    assert(e.skip(2) =~= rest);
}

/// Nothing is filled in with nothing.
pub proof fn law_an_empty_template_stays_empty(
    label: Seq<char>,
    executable: Seq<char>,
    log: Seq<char>,
)
    ensures
        filled(seq![], label, executable, log) == Seq::<char>::empty(),
{
}

/// An identity that is named is the one to sign with; where none is named, or an
/// empty one, signing goes without, which is told by a hyphen.
pub proof fn law_identities(identity: Seq<u8>)
    ensures
        identity.len() > 0 ==> chosen_identity(Some(identity)) == identity,
        identity.len() == 0 ==> chosen_identity(Some(identity)) == seq![45u8],
        chosen_identity(None) == seq![45u8],
        ad_hoc() == seq![45u8],
{
}

/// What is named, chosen and forgiven.
pub proof fn law_functions_on_files(
    process: u32,
    nonce: u128,
    name: String,
    named: Option<Vec<u8>>,
    identity: Vec<u8>,
    without: bool,
    result: std::io::Result<()>,
    forgiven: std::io::Result<()>,
)
    requires
        call_ensures(staging_name, (process, nonce), name),
        call_ensures(signing_identity, (named,), identity),
        call_ensures(is_ad_hoc, (&identity,), without),
        call_ensures(ignore_missing, (result,), forgiven),
    ensures
        name@ == ".MacWindowResizer-"@ + decimal(process as int) + "-"@ + decimal(nonce as int),
        named matches Some(given) ==> (given@.len() > 0 ==> identity@ == given@),
        (named is None || named->Some_0@.len() == 0) ==> identity@ == seq![45u8],
        without <==> identity@ == seq![45u8],
        result is Ok ==> forgiven is Ok,
        result matches Err(error) ==> (forgiven is Ok <==> not_found(error)),
        result matches Err(error) ==> (!not_found(error) ==> forgiven == result),
{
}

/// The property list names the label of the program, the executable and the log file,
/// with their markup escaped, wherever its template asks for them.
pub proof fn law_property_lists(
    template: &str,
    executable: &str,
    log: &str,
    list: String,
    before: Seq<char>,
    after: Seq<char>,
)
    requires
        call_ensures(agent_list, (template, executable, log), list),
        without_braces(before),
    ensures
        template@ == before + "{LABEL}"@ + after ==> list@ == before
            + "com.marcell.MacWindowResizer"@ + filled(
            after,
            "com.marcell.MacWindowResizer"@,
            escaped(executable@),
            escaped(log@),
        ),
        template@ == before + "{executable}"@ + after ==> list@ == before + escaped(executable@)
            + filled(
            after,
            "com.marcell.MacWindowResizer"@,
            escaped(executable@),
            escaped(log@),
        ),
        template@ == before + "{log}"@ + after ==> list@ == before + escaped(log@) + filled(
            after,
            "com.marcell.MacWindowResizer"@,
            escaped(executable@),
            escaped(log@),
        ),
        template@ == before ==> list@ == before,
{
    let label = "com.marcell.MacWindowResizer"@;
    let program = escaped(executable@);
    let file = escaped(log@);
    let later = filled(after, label, program, file);
    law_placeholders_are_filled_in(after, label, program, file);
    law_text_stays(before, "{LABEL}"@ + after, label, program, file);
    law_text_stays(before, "{executable}"@ + after, label, program, file);
    law_text_stays(before, "{log}"@ + after, label, program, file);
    assert(before + "{LABEL}"@ + after =~= before + ("{LABEL}"@ + after));
    assert(before + "{executable}"@ + after =~= before + ("{executable}"@ + after));
    assert(before + "{log}"@ + after =~= before + ("{log}"@ + after));
    assert(before + (label + later) =~= before + label + later);
    assert(before + (program + later) =~= before + program + later);
    assert(before + (file + later) =~= before + file + later);
}

} // verus!
