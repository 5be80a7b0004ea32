//! The documents the browser writes itself, around a picture or around text.

use vstd::prelude::*;

verus! {

/// `String::push`: the character is put at the end, and nothing else changes.
pub assume_specification[ String::push ](text: &mut String, character: char)
    ensures
        final(text)@ == old(text)@.push(character),
;

/// What stands for one character where it must not be read as markup.
pub open spec fn entity(character: char) -> Seq<char> {
    if character == '&' {
        "&amp;"@
    } else if character == '<' {
        "&lt;"@
    } else if character == '>' {
        "&gt;"@
    } else if character == '"' {
        "&quot;"@
    } else {
        seq![character]
    }
}

/// `text` with every character replaced by what stands for it.
pub open spec fn escaped(text: Seq<char>) -> Seq<char>
    decreases text.len(),
{
    if text.len() == 0 {
        seq![]
    } else {
        escaped(text.drop_last()) + entity(text.last())
    }
}

/// What follows the last slash, or everything where there is none.
pub open spec fn last_segment(url: Seq<char>) -> Seq<char>
    decreases url.len(),
{
    if url.len() == 0 || url.last() == '/' {
        seq![]
    } else {
        last_segment(url.drop_last()).push(url.last())
    }
}

/// The document a picture at `url` is shown in.
pub open spec fn image_markup(url: Seq<char>) -> Seq<char> {
    "<!doctype html><meta charset=utf-8><title>"@ + escaped(last_segment(url))
        + "</title><style>html { background: #1c1c1e } body { margin: 0; height: 100vh; display: flex; justify-content: center; align-items: center } img { max-width: 100%; max-height: 100% }</style><img src=\""@
        + escaped(url) + "\" alt=\"\">"@
}

/// The document `text` is shown in.
pub open spec fn text_markup(text: Seq<char>) -> Seq<char> {
    "<!doctype html><meta charset=utf-8><style>pre { font-family: monospace; white-space: pre; margin: 8px }</style><pre>"@
        + escaped(text) + "</pre>"@
}

/// The four characters that would otherwise be markup.
pub fn escape(text: &str) -> (out: String)
    ensures
        out@ == escaped(text@),
{
    let mut out = String::new();
    for character in it: text.chars()
        invariant
            it.seq() == text@,
            out@ == escaped(text@.take(it.index())),
    {
        proof {
            let seen = text@.take(it.index() + 1);
            assert(seen.drop_last() == text@.take(it.index()));
            assert(seen.last() == character);
        }
        let ghost before = out@;
        if character == '&' {
            out.append("&amp;");
        } else if character == '<' {
            out.append("&lt;");
        } else if character == '>' {
            out.append("&gt;");
        } else if character == '"' {
            out.append("&quot;");
        } else {
            out.push(character);
            assert(before.push(character) == before + seq![character]);
        }
    }
    assert(text@.take(text@.len() as int) == text@);
    out
}

/// The name a picture's document is titled with: the last segment of its address.
pub fn segment_name(url: &str) -> (name: String)
    ensures
        name@ == last_segment(url@),
{
    let mut name = String::new();
    for character in it: url.chars()
        invariant
            it.seq() == url@,
            name@ == last_segment(url@.take(it.index())),
    {
        proof {
            let seen = url@.take(it.index() + 1);
            assert(seen.drop_last() == url@.take(it.index()));
            assert(seen.last() == character);
        }
        if character == '/' {
            name = String::new();
        } else {
            name.push(character);
        }
    }
    assert(url@.take(url@.len() as int) == url@);
    name
}

/// The document a picture is shown in.
///
/// A browser given a picture and nothing else wraps it in a document of its own:
/// there is no markup to render, and an `<img>` is what an engine already knows how
/// to place.
pub fn image_document(url: &str) -> (document: String)
    ensures
        document@ == image_markup(url@),
{
    let name = segment_name(url);
    let mut document = "<!doctype html><meta charset=utf-8><title>".to_owned();
    document.append(escape(name.as_str()).as_str());
    document.append(
        "</title><style>html { background: #1c1c1e } body { margin: 0; height: 100vh; display: flex; justify-content: center; align-items: center } img { max-width: 100%; max-height: 100% }</style><img src=\"",
    );
    document.append(escape(url).as_str());
    document.append("\" alt=\"\">");
    document
}

/// The document text is shown in.
///
/// Text is text: it is wrapped in a `<pre>` so that its own line breaks and spacing
/// survive, and escaped so that a file full of markup is shown rather than rendered.
pub fn text_document(text: &str) -> (document: String)
    ensures
        document@ == text_markup(text@),
{
    let mut document =
        "<!doctype html><meta charset=utf-8><style>pre { font-family: monospace; white-space: pre; margin: 8px }</style><pre>".to_owned();
    document.append(escape(text).as_str());
    document.append("</pre>");
    document
}

/// Escaped text holds no angle bracket and no quotation mark, so nothing in it can
/// open a tag, close one, or leave an attribute's value.
pub proof fn escaped_text_holds_no_markup(text: Seq<char>)
    ensures
        forall|i: int|
            0 <= i < escaped(text).len() ==> {
                let c = #[trigger] escaped(text)[i];
                c != '<' && c != '>' && c != '"'
            },
    decreases text.len(),
{
    if text.len() > 0 {
        escaped_text_holds_no_markup(text.drop_last());
        reveal_strlit("&amp;");
        reveal_strlit("&lt;");
        reveal_strlit("&gt;");
        reveal_strlit("&quot;");
        let head = escaped(text.drop_last());
        assert forall|i: int| 0 <= i < escaped(text).len() implies {
            let c = #[trigger] escaped(text)[i];
            c != '<' && c != '>' && c != '"'
        } by {
            if i < head.len() {
                assert(escaped(text)[i] == head[i]);
            } else {
                assert(escaped(text)[i] == entity(text.last())[i - head.len()]);
            }
        }
    }
}

/// Texts that are joined and escaped are what they are escaped and joined.
pub proof fn escaping_goes_into_a_joining(left: Seq<char>, right: Seq<char>)
    ensures
        escaped(left + right) == escaped(left) + escaped(right),
    decreases right.len(),
{
    if right.len() == 0 {
        assert(left + right =~= left);
        assert(escaped(left) + escaped(right) =~= escaped(left));
    } else {
        escaping_goes_into_a_joining(left, right.drop_last());
        assert((left + right).drop_last() =~= left + right.drop_last());
        assert((left + right).last() == right.last());
        assert(escaped(left + right) =~= escaped(left) + escaped(right));
    }
}

/// What stands for one character does not begin what stands for another.
proof fn entities_tell_characters_apart(one: char, other: char, rest: Seq<char>, after: Seq<char>)
    requires
        entity(one) + rest == entity(other) + after,
    ensures
        one == other,
        rest == after,
{
    reveal_strlit("&amp;");
    reveal_strlit("&lt;");
    reveal_strlit("&gt;");
    reveal_strlit("&quot;");
    let joined = entity(one) + rest;
    assert(joined[0] == entity(one)[0]);
    assert((entity(other) + after)[0] == entity(other)[0]);
    if entity(one).len() > 1 && entity(other).len() > 1 {
        assert(joined[1] == entity(one)[1]);
        assert((entity(other) + after)[1] == entity(other)[1]);
    }
    assert(one == other);
    assert(joined.skip(entity(one).len() as int) =~= rest);
    assert((entity(other) + after).skip(entity(other).len() as int) =~= after);
}

/// Two texts that are escaped alike are the same text: nothing is lost by it.
pub proof fn escaping_tells_texts_apart(one: Seq<char>, other: Seq<char>)
    requires
        escaped(one) == escaped(other),
    ensures
        one == other,
    decreases one.len(),
{
    reveal_strlit("&amp;");
    reveal_strlit("&lt;");
    reveal_strlit("&gt;");
    reveal_strlit("&quot;");
    if one.len() == 0 || other.len() == 0 {
        assert(one =~= other);
    } else {
        let head = seq![one[0]];
        let first = seq![other[0]];
        let rest = one.drop_first();
        let after = other.drop_first();
        assert(one =~= head + rest);
        assert(other =~= first + after);
        escaping_goes_into_a_joining(head, rest);
        escaping_goes_into_a_joining(first, after);
        assert(head.drop_last() =~= seq![]);
        assert(first.drop_last() =~= seq![]);
        assert(escaped(seq![]) =~= seq![]);
        assert(escaped(head) =~= entity(one[0]));
        assert(escaped(first) =~= entity(other[0]));
        entities_tell_characters_apart(one[0], other[0], escaped(rest), escaped(after));
        escaping_tells_texts_apart(rest, after);
    }
}

/// What follows the last slash holds no slash.
pub proof fn last_segment_holds_no_slash(url: Seq<char>)
    ensures
        !last_segment(url).contains('/'),
    decreases url.len(),
{
    if url.len() > 0 {
        last_segment_holds_no_slash(url.drop_last());
    }
}

} // verus!
