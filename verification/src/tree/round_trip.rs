//! The display round trip: the pretty-printed form of a schema tree is a
//! valid schema, and parsing it restores the tree.

use vstd::prelude::*;

use crate::text::{
    dec_text, is_digit_char, is_symbol_char, lemma_dec_text_val,
};
use crate::tree::message::{
    comments_text, fields_text, unique_field_names, Message, MessageField,
};
use crate::tree::parse::{
    digit_end, is_ws_char, line_end, skip_ws_comments, spec_exact, spec_field_number,
    spec_message, spec_message_body, spec_message_field, spec_source_file, spec_symbol,
    spec_type_tag, spec_value_u32, sym_end, ws_end, FieldModel, MessageModel,
};
use crate::gen::message_encode::spec_has_numbers;
use crate::tree::source::{SourceDec, SourceFile};
use crate::tree::var::{lemma_primitive_spelling, PrimitiveType, TypeTag};

verus! {

/// Whether the text `r` stands in `t` at position `pos`.
pub open spec fn region_at(t: Seq<char>, pos: int, r: Seq<char>) -> bool {
    &&& 0 <= pos
    &&& pos + r.len() <= t.len()
    &&& forall|k: int| 0 <= k < r.len() ==> t[pos + k] == #[trigger] r[k]
}

/// The parsed shape of a field.
pub open spec fn model_of(f: MessageField) -> FieldModel {
    (f.var.name@, f.var.tag, f.field_number)
}

/// The parsed shapes of a run of fields, in order.
pub open spec fn models_of(fs: Seq<MessageField>) -> Seq<FieldModel> {
    Seq::new(fs.len(), |i: int| model_of(fs[i]))
}

/// A symbol character is not whitespace and is none of the grammar's
/// delimiter characters.
proof fn lemma_symbol_char_delims(c: char)
    requires
        is_symbol_char(c),
    ensures
        !is_ws_char(c),
        c != ':' && c != ';' && c != '=' && c != '{' && c != '}' && c != '/' && c != '\n',
{
}

/// A whitespace run bounded by a non-whitespace character ends there.
proof fn lemma_ws_run_at(t: Seq<char>, pos: int, q: int)
    requires
        0 <= pos <= q <= t.len(),
        forall|k: int| pos <= k < q ==> is_ws_char(#[trigger] t[k]),
        q == t.len() || !is_ws_char(t[q]),
    ensures
        ws_end(t, pos) == q,
    decreases q - pos,
{
    if pos < q {
        lemma_ws_run_at(t, pos + 1, q);
    }
}

/// A symbol run bounded by a non-symbol character ends there.
proof fn lemma_sym_run_at(t: Seq<char>, pos: int, q: int)
    requires
        0 <= pos <= q <= t.len(),
        forall|k: int| pos <= k < q ==> is_symbol_char(#[trigger] t[k]),
        q == t.len() || !is_symbol_char(t[q]),
    ensures
        sym_end(t, pos) == q,
    decreases q - pos,
{
    if pos < q {
        lemma_symbol_char_delims(t[pos]);
        lemma_sym_run_at(t, pos + 1, q);
    }
}

/// A digit run bounded by a non-digit character ends there.
proof fn lemma_digit_run_at(t: Seq<char>, pos: int, q: int)
    requires
        0 <= pos <= q <= t.len(),
        forall|k: int| pos <= k < q ==> is_digit_char(#[trigger] t[k]),
        q == t.len() || !is_digit_char(t[q]),
    ensures
        digit_end(t, pos) == q,
    decreases q - pos,
{
    if pos < q {
        lemma_digit_run_at(t, pos + 1, q);
    }
}

/// A newline-free run followed by a newline ends the line just past it.
proof fn lemma_line_end_at(t: Seq<char>, pos: int, q: int)
    requires
        0 <= pos <= q < t.len(),
        forall|k: int| pos <= k < q ==> #[trigger] t[k] != '\n',
        t[q] == '\n',
    ensures
        line_end(t, pos) == q + 1,
    decreases q - pos,
{
    if pos < q {
        lemma_line_end_at(t, pos + 1, q);
    }
}

/// Skipping is stationary at a character that opens neither whitespace nor
/// a comment.
proof fn lemma_skip_stops(t: Seq<char>, pos: int)
    requires
        0 <= pos,
        pos == t.len() || (!is_ws_char(t[pos]) && t[pos] != '/'),
    ensures
        skip_ws_comments(t, pos) == pos,
{
}

/// Skipping passes over a whitespace run.
proof fn lemma_skip_over_ws(t: Seq<char>, pos: int, q: int)
    requires
        0 <= pos <= q <= t.len(),
        forall|k: int| pos <= k < q ==> is_ws_char(#[trigger] t[k]),
    ensures
        skip_ws_comments(t, pos) == skip_ws_comments(t, q),
    decreases q - pos,
{
    if pos < q {
        lemma_skip_over_ws(t, pos + 1, q);
    }
}

/// Two texts differing at an index, or in length, are distinct.
proof fn lemma_texts_differ(a: Seq<char>, b: Seq<char>, i: int)
    requires
        a.len() != b.len() || (0 <= i < a.len() && i < b.len() && a[i] != b[i]),
    ensures
        a != b,
{
    if a == b {
        if a.len() == b.len() {
            assert(a[i] == b[i]);
        }
    }
}

/// The parsed value of a rendered field number.
proof fn lemma_parse_value_at(t: Seq<char>, pos: int, n: u32)
    requires
        region_at(t, pos, dec_text(n as int)),
        pos + dec_text(n as int).len() == t.len() || !is_digit_char(
            t[pos + dec_text(n as int).len()],
        ),
    ensures
        spec_value_u32(t, pos) == Some::<(u32, int)>((n, pos + dec_text(n as int).len())),
{
    let d = dec_text(n as int);
    lemma_dec_text_val(n as int);
    assert forall|k: int| pos <= k < pos + d.len() implies is_digit_char(#[trigger] t[k]) by {
        assert(t[k] == d[k - pos]);
    }
    lemma_digit_run_at(t, pos, pos + d.len());
    assert(t.subrange(pos, pos + d.len()) =~= d);
}

/// The parsed shape of a rendered field: parsing a field's display text
/// restores its name, type and number.
proof fn lemma_parse_field_at(t: Seq<char>, pos: int, f: MessageField)
    requires
        f.wf(),
        region_at(t, pos, f.spec_display()),
    ensures
        spec_message_field(t, pos) == Some::<(FieldModel, int)>(
            (model_of(f), pos + f.spec_display().len()),
        ),
{
    let fd = f.spec_display();
    let name = f.var.name@;
    let nl = name.len() as int;
    let tag_str = f.var.tag.spec_str();
    let tl = tag_str.len() as int;
    let p = match f.var.tag {
        TypeTag::Primitive(p) => p,
    };
    lemma_primitive_spelling(p);
    reveal_strlit(": ");
    reveal_strlit(";");
    reveal_strlit(" = ");
    reveal_strlit("u8");
    reveal_strlit("u16");
    reveal_strlit("u32");
    reveal_strlit("u64");

    // the name run
    assert forall|k: int| 0 <= k < nl implies t[pos + k] == name[k] by {
        assert(t[pos + k] == fd[k]);
    }
    assert(t[pos + nl] == ':') by {
        assert(t[pos + nl] == fd[nl]);
    }
    assert forall|k: int| pos <= k < pos + nl implies is_symbol_char(#[trigger] t[k]) by {
        assert(t[k] == name[k - pos]);
    }
    lemma_sym_run_at(t, pos, pos + nl);
    assert(sym_end(t, pos) == pos + nl);
    assert(t.subrange(pos, pos + nl) =~= name);
    let p1 = pos + nl;

    // no whitespace before the colon, one space after it
    lemma_ws_run_at(t, p1, p1);
    assert(t[p1 + 1] == ' ') by {
        assert(t[p1 + 1] == fd[nl + 1]);
    }
    assert(t[p1 + 2] == tag_str[0]) by {
        assert(t[p1 + 2] == fd[nl + 2]);
    }
    lemma_ws_run_at(t, p1 + 2, p1 + 2);
    assert(ws_end(t, p1 + 1) == p1 + 2) by {
        lemma_ws_run_at(t, p1 + 1, p1 + 2);
    }
    let p3 = p1 + 2;

    // the type run
    assert forall|k: int| 0 <= k < tl implies t[p3 + k] == tag_str[k] by {
        assert(t[p3 + k] == fd[nl + 2 + k]);
    }
    match f.field_number {
        Some(num) => {
            assert(t[p3 + tl] == ' ') by {
                assert(t[p3 + tl] == fd[nl + 2 + tl]);
            }
        },
        None => {
            assert(t[p3 + tl] == ';') by {
                assert(t[p3 + tl] == fd[nl + 2 + tl]);
            }
        },
    }
    assert forall|k: int| p3 <= k < p3 + tl implies is_symbol_char(#[trigger] t[k]) by {
        assert(t[k] == tag_str[k - p3]);
    }
    lemma_sym_run_at(t, p3, p3 + tl);
    assert(t.subrange(p3, p3 + tl) =~= tag_str);
    assert(spec_symbol(t, p3) == Some::<(Seq<char>, int)>((tag_str, p3 + tl)));
    assert(spec_type_tag(t, p3) == Some::<(TypeTag, int)>((f.var.tag, p3 + tl))) by {
        match p {
            PrimitiveType::UnsignedInt8 => {
                assert(tag_str == "u8"@);
            },
            PrimitiveType::UnsignedInt16 => {
                lemma_texts_differ(tag_str, "u8"@, 0);
                lemma_texts_differ(tag_str, "u32"@, 1);
                lemma_texts_differ(tag_str, "u64"@, 1);
            },
            PrimitiveType::UnsignedInt32 => {
                lemma_texts_differ(tag_str, "u8"@, 0);
                lemma_texts_differ(tag_str, "u16"@, 1);
                lemma_texts_differ(tag_str, "u64"@, 1);
            },
            PrimitiveType::UnsignedInt64 => {
                lemma_texts_differ(tag_str, "u8"@, 0);
                lemma_texts_differ(tag_str, "u16"@, 1);
                lemma_texts_differ(tag_str, "u32"@, 1);
            },
        }
    }
    let p4 = p3 + tl;

    match f.field_number {
        Some(num) => {
            let d = dec_text(num as int);
            lemma_dec_text_val(num as int);
            // " = " then the digits, then the final ";"
            assert(t[p4] == ' ') by {
                assert(t[p4] == fd[nl + 2 + tl]);
            }
            assert(t[p4 + 1] == '=') by {
                assert(t[p4 + 1] == fd[nl + 2 + tl + 1]);
            }
            assert(t[p4 + 2] == ' ') by {
                assert(t[p4 + 2] == fd[nl + 2 + tl + 2]);
            }
            assert(ws_end(t, p4) == p4 + 1) by {
                lemma_ws_run_at(t, p4, p4 + 1);
            }
            assert(ws_end(t, p4 + 2) == p4 + 3) by {
                assert(t[p4 + 3] == fd[nl + 2 + tl + 3]);
                assert(t[p4 + 3] == d[0]);
                lemma_ws_run_at(t, p4 + 2, p4 + 3);
            }
            assert forall|k: int| 0 <= k < d.len() implies t[p4 + 3 + k] == d[k] by {
                assert(t[p4 + 3 + k] == fd[nl + 2 + tl + 3 + k]);
            }
            assert(t[p4 + 3 + d.len()] == ';') by {
                assert(t[p4 + 3 + d.len()] == fd[fd.len() - 1]);
            }
            lemma_parse_value_at(t, p4 + 3, num);
            let p5 = p4 + 3 + d.len() as int;
            assert(spec_field_number(t, p4) == Some::<(Option<u32>, int)>((Some(num), p5)));
            assert(ws_end(t, p5) == p5) by {
                lemma_ws_run_at(t, p5, p5);
            }
            assert(t[p5] == ';') by {
                assert(t[p5] == fd[fd.len() - 1]);
            }
            assert(pos + fd.len() == p5 + 1);
        },
        None => {
            // directly the final ";"
            assert(t[p4] == ';') by {
                assert(t[p4] == fd[fd.len() - 1]);
            }
            assert(ws_end(t, p4) == p4) by {
                lemma_ws_run_at(t, p4, p4);
            }
            assert(spec_field_number(t, p4) == Some::<(Option<u32>, int)>((None, p4)));
            assert(pos + fd.len() == p4 + 1);
        },
    }
}

/// A run of comment lines decomposes from the front.
proof fn lemma_comments_text_first(cs: Seq<Seq<char>>)
    requires
        cs.len() > 0,
    ensures
        comments_text(cs) == "// "@ + cs[0] + "\n"@ + comments_text(cs.drop_first()),
    decreases cs.len(),
{
    if cs.len() == 1 {
        assert(cs.drop_last() =~= Seq::<Seq<char>>::empty());
        assert(cs.drop_first() =~= Seq::<Seq<char>>::empty());
        assert(cs.last() == cs[0]);
        assert(comments_text(cs) =~= "// "@ + cs[0] + "\n"@ + comments_text(cs.drop_first()));
    } else {
        let dl = cs.drop_last();
        lemma_comments_text_first(dl);
        assert(dl.drop_first() =~= cs.drop_first().drop_last());
        assert(dl[0] == cs[0]);
        assert(cs.drop_first().last() == cs.last());
        assert(comments_text(cs) =~= "// "@ + cs[0] + "\n"@ + comments_text(cs.drop_first()));
    }
}

/// A run of field lines decomposes from the front.
proof fn lemma_fields_text_first(fs: Seq<MessageField>)
    requires
        fs.len() > 0,
    ensures
        fields_text(fs) == "    "@ + fs[0].spec_display() + "\n"@ + fields_text(fs.drop_first()),
    decreases fs.len(),
{
    if fs.len() == 1 {
        assert(fs.drop_last() =~= Seq::<MessageField>::empty());
        assert(fs.drop_first() =~= Seq::<MessageField>::empty());
        assert(fs.last() == fs[0]);
        assert(fields_text(fs) =~= "    "@ + fs[0].spec_display() + "\n"@ + fields_text(
            fs.drop_first(),
        ));
    } else {
        let dl = fs.drop_last();
        lemma_fields_text_first(dl);
        assert(dl.drop_first() =~= fs.drop_first().drop_last());
        assert(dl[0] == fs[0]);
        assert(fs.drop_first().last() == fs.last());
        assert(fields_text(fs) =~= "    "@ + fs[0].spec_display() + "\n"@ + fields_text(
            fs.drop_first(),
        ));
    }
}

/// The parsed shape of a rendered message body: a newline, the field
/// lines, then the closing brace.
proof fn lemma_parse_body_at(t: Seq<char>, pos: int, fs: Seq<MessageField>)
    requires
        forall|i: int| 0 <= i < fs.len() ==> (#[trigger] fs[i]).wf(),
        region_at(t, pos, "\n"@ + fields_text(fs) + "}"@),
    ensures
        spec_message_body(t, pos) == Some::<(Seq<FieldModel>, int)>(
            (models_of(fs), pos + fields_text(fs).len() + 2),
        ),
    decreases fs.len(),
{
    reveal_strlit("\n");
    reveal_strlit("}");
    reveal_strlit("    ");
    let ft = fields_text(fs);
    let region = "\n"@ + ft + "}"@;
    assert(t[pos] == '\n') by {
        assert(t[pos] == region[0]);
    }
    if fs.len() == 0 {
        assert(ft =~= Seq::<char>::empty());
        assert(t[pos + 1] == '}') by {
            assert(t[pos + 1] == region[1]);
        }
        assert forall|k: int| pos <= k < pos + 1 implies is_ws_char(#[trigger] t[k]) by {}
        lemma_skip_over_ws(t, pos, pos + 1);
        lemma_skip_stops(t, pos + 1);
        assert(spec_message_body(t, pos) == Some::<(Seq<FieldModel>, int)>(
            (Seq::<FieldModel>::empty(), pos + 2),
        ));
        assert(models_of(fs) =~= Seq::<FieldModel>::empty());
    } else {
        lemma_fields_text_first(fs);
        let f0 = fs[0];
        let fd = f0.spec_display();
        let rest = fs.drop_first();
        let ftr = fields_text(rest);
        assert(region =~= "\n    "@ + fd + ("\n"@ + ftr + "}"@)) by {
            reveal_strlit("\n    ");
        }
        let region2 = "\n    "@ + fd + ("\n"@ + ftr + "}"@);
        // the leading newline and indent are whitespace
        assert forall|k: int| pos <= k < pos + 5 implies is_ws_char(#[trigger] t[k]) by {
            assert(t[k] == region2[k - pos]);
            reveal_strlit("\n    ");
        }
        lemma_skip_over_ws(t, pos, pos + 5);
        // the field display stands at pos + 5
        assert forall|k: int| 0 <= k < fd.len() implies t[pos + 5 + k] == #[trigger] fd[k] by {
            assert(t[pos + 5 + k] == region2[5 + k]);
        }
        assert(region_at(t, pos + 5, fd));
        assert(f0.wf());
        // its first character is a symbol character, so skipping stops there
        assert(t[pos + 5] == f0.var.name@[0]) by {
            assert(fd[0] == f0.var.name@[0]);
        }
        assert(is_symbol_char(t[pos + 5]));
        lemma_symbol_char_delims(t[pos + 5]);
        lemma_skip_stops(t, pos + 5);
        assert(skip_ws_comments(t, pos) == pos + 5);
        lemma_parse_field_at(t, pos + 5, f0);
        let q = pos + 5 + fd.len() as int;
        // the rest of the body stands at q
        assert forall|k: int| 0 <= k < 1 + ftr.len() + 1 implies t[q + k] == #[trigger] ("\n"@ + ftr
            + "}"@)[k] by {
            assert(t[q + k] == region2[5 + fd.len() + k]);
        }
        assert(region_at(t, q, "\n"@ + ftr + "}"@));
        assert(forall|i: int| 0 <= i < rest.len() ==> (#[trigger] rest[i]).wf()) by {
            assert(forall|i: int| 0 <= i < rest.len() ==> rest[i] == fs[i + 1]);
        }
        lemma_parse_body_at(t, q, rest);
        assert(spec_message_body(t, q) == Some::<(Seq<FieldModel>, int)>(
            (models_of(rest), q + ftr.len() + 2),
        ));
        assert(spec_message_body(t, pos) == Some::<(Seq<FieldModel>, int)>(
            (seq![model_of(f0)] + models_of(rest), q + ftr.len() + 2),
        ));
        assert(seq![model_of(f0)] + models_of(rest) =~= models_of(fs));
        assert(q + ftr.len() + 2 == pos + ft.len() + 2);
    }
}

/// The display text of a message without its leading comments.
pub open spec fn message_core_text(m: Message) -> Seq<char> {
    "message "@ + m.name@ + " {"@ + (if m.fields@.len() == 0 {
        "}"@
    } else {
        "\n"@ + fields_text(m.fields@) + "}"@
    }) + "\n"@
}

/// The display text is the comments followed by the core text.
proof fn lemma_display_decomposes(m: Message)
    ensures
        m.spec_display() == comments_text(m.comments.deep_view()) + message_core_text(m),
{
    assert(m.spec_display() =~= comments_text(m.comments.deep_view()) + message_core_text(m));
}

/// The parsed shape of a rendered message core: parsing it restores the
/// name and the fields, and consumes everything but the final newline.
proof fn lemma_parse_message_at(t: Seq<char>, pos: int, m: Message)
    requires
        m.wf(),
        region_at(t, pos, message_core_text(m)),
    ensures
        spec_message(t, pos) == Some::<(MessageModel, int)>(
            ((m.name@, models_of(m.fields@)), pos + message_core_text(m).len() - 1),
        ),
{
    reveal_strlit("message ");
    reveal_strlit("message");
    reveal_strlit(" {");
    reveal_strlit("}");
    reveal_strlit("\n");
    let core = message_core_text(m);
    let name = m.name@;
    let nl = name.len() as int;
    // the keyword and the space after it
    assert forall|k: int| 0 <= k < 7 implies t[pos + k] == #[trigger] "message"@[k] by {
        assert(t[pos + k] == core[k]);
    }
    assert(t.subrange(pos, pos + 7) =~= "message"@);
    assert(spec_exact(t, pos, "message"@) == Some::<int>(pos + 7));
    let p1 = pos + 7;
    assert(t[p1] == ' ') by {
        assert(t[p1] == core[7]);
    }
    // the name run
    assert forall|k: int| 0 <= k < nl implies t[pos + 8 + k] == name[k] by {
        assert(t[pos + 8 + k] == core[8 + k]);
    }
    assert(t[pos + 8] == name[0]);
    assert(is_symbol_char(t[pos + 8]));
    lemma_symbol_char_delims(t[pos + 8]);
    assert(ws_end(t, p1) == pos + 8) by {
        lemma_ws_run_at(t, p1, pos + 8);
    }
    let p2 = pos + 8;
    assert(t[p2 + nl] == ' ') by {
        assert(t[p2 + nl] == core[8 + nl]);
    }
    assert forall|k: int| p2 <= k < p2 + nl implies is_symbol_char(#[trigger] t[k]) by {
        assert(t[k] == name[k - p2]);
    }
    lemma_sym_run_at(t, p2, p2 + nl);
    assert(t.subrange(p2, p2 + nl) =~= name);
    assert(spec_symbol(t, p2) == Some::<(Seq<char>, int)>((name, p2 + nl)));
    let p3 = p2 + nl;
    // the space and the opening brace
    assert(t[p3 + 1] == '{') by {
        assert(t[p3 + 1] == core[9 + nl]);
    }
    assert(ws_end(t, p3) == p3 + 1) by {
        lemma_ws_run_at(t, p3, p3 + 1);
    }
    let p4 = p3 + 1;
    let body_pos = p4 + 1;
    if m.fields@.len() == 0 {
        assert(t[body_pos] == '}') by {
            assert(t[body_pos] == core[10 + nl]);
        }
        lemma_skip_stops(t, body_pos);
        assert(spec_message_body(t, body_pos) == Some::<(Seq<FieldModel>, int)>(
            (Seq::<FieldModel>::empty(), body_pos + 1),
        ));
        assert(models_of(m.fields@) =~= Seq::<FieldModel>::empty());
        assert(core.len() == nl + 12);
    } else {
        let ft = fields_text(m.fields@);
        assert forall|k: int| 0 <= k < 1 + ft.len() + 1 implies t[body_pos + k] == #[trigger] ("\n"@
            + ft + "}"@)[k] by {
            assert(t[body_pos + k] == core[10 + nl + k]);
        }
        assert(region_at(t, body_pos, "\n"@ + ft + "}"@));
        lemma_parse_body_at(t, body_pos, m.fields@);
        assert(core.len() == nl + 13 + ft.len());
    }
}

/// Whether a comment line can stand on one line: it holds no newline.
pub open spec fn comment_line_ok(c: Seq<char>) -> bool {
    forall|k: int| 0 <= k < c.len() ==> #[trigger] c[k] != '\n'
}

/// Skipping passes over a run of rendered comment lines.
proof fn lemma_skip_over_comments(t: Seq<char>, pos: int, cs: Seq<Seq<char>>)
    requires
        forall|i: int| 0 <= i < cs.len() ==> comment_line_ok(#[trigger] cs[i]),
        region_at(t, pos, comments_text(cs)),
    ensures
        skip_ws_comments(t, pos) == skip_ws_comments(t, pos + comments_text(cs).len()),
    decreases cs.len(),
{
    reveal_strlit("// ");
    reveal_strlit("\n");
    if cs.len() == 0 {
        assert(comments_text(cs).len() == 0);
    } else {
        lemma_comments_text_first(cs);
        let c0 = cs[0];
        let cl = c0.len() as int;
        let ct = comments_text(cs);
        let line = "// "@ + c0 + "\n"@;
        assert(ct == line + comments_text(cs.drop_first()));
        assert forall|k: int| 0 <= k < line.len() implies t[pos + k] == #[trigger] line[k] by {
            assert(t[pos + k] == ct[k]);
            assert(ct[k] == (line + comments_text(cs.drop_first()))[k]);
        }
        assert(t[pos] == '/' && t[pos + 1] == '/') by {
            assert(line[0] == '/');
            assert(line[1] == '/');
        }
        assert(t[pos + 2] == ' ') by {
            assert(line[2] == ' ');
        }
        // the comment body holds no newline, and the line ends with one
        assert forall|k: int| pos + 2 <= k < pos + 3 + cl implies #[trigger] t[k] != '\n' by {
            assert(t[k] == line[k - pos]);
            if k >= pos + 3 {
                assert(line[k - pos] == c0[k - pos - 3]);
            }
        }
        assert(t[pos + 3 + cl] == '\n') by {
            assert(t[pos + 3 + cl] == line[3 + cl]);
        }
        lemma_line_end_at(t, pos + 2, pos + 3 + cl);
        assert(skip_ws_comments(t, pos) == skip_ws_comments(t, pos + 4 + cl));
        let rest = cs.drop_first();
        assert forall|k: int| 0 <= k < comments_text(rest).len() implies t[pos + 4 + cl + k]
            == #[trigger] comments_text(rest)[k] by {
            assert(t[pos + 4 + cl + k] == ct[4 + cl + k]);
        }
        assert(region_at(t, pos + 4 + cl, comments_text(rest)));
        assert(forall|i: int| 0 <= i < rest.len() ==> comment_line_ok(#[trigger] rest[i])) by {
            assert(forall|i: int| 0 <= i < rest.len() ==> rest[i] == cs[i + 1]);
        }
        lemma_skip_over_comments(t, pos + 4 + cl, rest);
        assert(pos + 4 + cl + comments_text(rest).len() == pos + ct.len());
    }
}

/// The display round trip: the pretty-printed form of a well-formed schema
/// tree is a valid schema, and parsing it restores the tree's name and its
/// fields' names, types and numbers. The message's own comments are
/// consumed as schema comments and attach to no declaration.
#[verifier::rlimit(100)]
pub proof fn lemma_display_round_trip(m: Message)
    requires
        m.wf(),
        spec_has_numbers(m),
        unique_field_names(m),
        forall|i: int| 0 <= i < m.comments.deep_view().len() ==> comment_line_ok(
            #[trigger] m.comments.deep_view()[i],
        ),
    ensures
        spec_source_file(m.spec_display(), 0) == Some::<Seq<MessageModel>>(
            seq![(m.name@, models_of(m.fields@))],
        ),
{
    reveal_strlit("message ");
    reveal_strlit("\n");
    let t = m.spec_display();
    let cs = m.comments.deep_view();
    let ct = comments_text(cs);
    let core = message_core_text(m);
    lemma_display_decomposes(m);
    let ll = ct.len() as int;
    assert(t.len() == ll + core.len());
    assert forall|k: int| 0 <= k < ll implies t[k] == #[trigger] ct[k] by {
        assert(t[k] == (ct + core)[k]);
    }
    assert(region_at(t, 0, ct));
    lemma_skip_over_comments(t, 0, cs);
    assert forall|k: int| 0 <= k < core.len() implies t[ll + k] == #[trigger] core[k] by {
        assert(t[ll + k] == (ct + core)[ll + k]);
    }
    assert(region_at(t, ll, core));
    assert(t[ll] == 'm') by {
        assert(core[0] == "message "@[0]);
    }
    lemma_skip_stops(t, ll);
    assert(skip_ws_comments(t, 0) == ll);
    lemma_parse_message_at(t, ll, m);
    let e = ll + core.len() - 1;
    assert(spec_message(t, ll) == Some::<(MessageModel, int)>(
        ((m.name@, models_of(m.fields@)), e),
    ));
    // only the final newline remains
    assert(t[e] == '\n') by {
        assert(core[core.len() - 1] == '\n');
        assert(t[e] == core[core.len() - 1]);
    }
    assert forall|k: int| e <= k < t.len() implies is_ws_char(#[trigger] t[k]) by {}
    lemma_skip_over_ws(t, e, t.len() as int);
    lemma_skip_stops(t, t.len() as int);
    assert(spec_source_file(t, e) == Some::<Seq<MessageModel>>(Seq::<MessageModel>::empty()));
    assert(spec_source_file(t, 0) == Some::<Seq<MessageModel>>(
        seq![(m.name@, models_of(m.fields@))] + Seq::<MessageModel>::empty(),
    ));
    assert(seq![(m.name@, models_of(m.fields@))] + Seq::<MessageModel>::empty() =~= seq![
        (m.name@, models_of(m.fields@)),
    ]);
}

/// Parse determinism: two schemas that carry the same parsed shapes are
/// the same schema, up to the views of their texts. Together with the
/// parsers' contracts, any two parses of one input agree.
pub proof fn lemma_parse_deterministic(
    sf1: SourceFile,
    sf2: SourceFile,
    mms: Seq<MessageModel>,
)
    requires
        crate::tree::parse::source_matches(sf1, mms),
        crate::tree::parse::source_matches(sf2, mms),
    ensures
        sf1.declarations@.len() == sf2.declarations@.len(),
        forall|k: int|
            0 <= k < sf1.declarations@.len() ==> schema_dec_eq(
                #[trigger] sf1.declarations@[k],
                sf2.declarations@[k],
            ),
{
    assert forall|k: int| 0 <= k < sf1.declarations@.len() implies schema_dec_eq(
        #[trigger] sf1.declarations@[k],
        sf2.declarations@[k],
    ) by {
        let d1 = sf1.declarations@[k];
        let d2 = sf2.declarations@[k];
        match (d1, d2) {
            (SourceDec::MessageDec(m1), SourceDec::MessageDec(m2)) => {
                assert(crate::tree::parse::message_matches(m1, mms[k]));
                assert(crate::tree::parse::message_matches(m2, mms[k]));
                assert(m1.comments.deep_view() =~= m2.comments.deep_view());
                assert forall|j: int| 0 <= j < m1.fields@.len() implies {
                    &&& (#[trigger] m1.fields@[j]).var.name@ == m2.fields@[j].var.name@
                    &&& m1.fields@[j].var.tag == m2.fields@[j].var.tag
                    &&& m1.fields@[j].field_number == m2.fields@[j].field_number
                    &&& m1.fields@[j].comments.deep_view() == m2.fields@[j].comments.deep_view()
                } by {
                    assert(crate::tree::parse::field_matches(m1.fields@[j], mms[k].1[j]));
                    assert(crate::tree::parse::field_matches(m2.fields@[j], mms[k].1[j]));
                    assert(m1.fields@[j].comments.deep_view()
                        =~= m2.fields@[j].comments.deep_view());
                }
            },
        }
    }
}

/// The round trip, end to end: a schema tree parsed back from its own
/// display text has one declaration, and that declaration restores the
/// tree's name and its fields' names, types and numbers.
pub proof fn lemma_round_trip_restores(m: Message, sf: SourceFile)
    requires
        m.wf(),
        spec_has_numbers(m),
        unique_field_names(m),
        forall|i: int| 0 <= i < m.comments.deep_view().len() ==> comment_line_ok(
            #[trigger] m.comments.deep_view()[i],
        ),
        crate::tree::parse::source_matches(sf, spec_source_file(m.spec_display(), 0).unwrap()),
    ensures
        sf.declarations@.len() == 1,
        match sf.declarations@[0] {
            SourceDec::MessageDec(m2) => {
                &&& m2.name@ == m.name@
                &&& m2.comments@.len() == 0
                &&& m2.fields@.len() == m.fields@.len()
                &&& forall|j: int| 0 <= j < m.fields@.len() ==> {
                    &&& (#[trigger] m2.fields@[j]).var.name@ == m.fields@[j].var.name@
                    &&& m2.fields@[j].var.tag == m.fields@[j].var.tag
                    &&& m2.fields@[j].field_number == m.fields@[j].field_number
                }
            },
        },
{
    lemma_display_round_trip(m);
    let mms = spec_source_file(m.spec_display(), 0).unwrap();
    assert(mms == seq![(m.name@, models_of(m.fields@))]);
    assert(mms[0] == (m.name@, models_of(m.fields@)));
    match sf.declarations@[0] {
        SourceDec::MessageDec(m2) => {
            assert(crate::tree::parse::message_matches(m2, mms[0]));
            assert forall|j: int| 0 <= j < m.fields@.len() implies {
                &&& (#[trigger] m2.fields@[j]).var.name@ == m.fields@[j].var.name@
                &&& m2.fields@[j].var.tag == m.fields@[j].var.tag
                &&& m2.fields@[j].field_number == m.fields@[j].field_number
            } by {
                assert(crate::tree::parse::field_matches(m2.fields@[j], models_of(m.fields@)[j]));
                assert(models_of(m.fields@)[j] == model_of(m.fields@[j]));
            }
        },
    }
}

/// Whether two declarations declare the same element, up to text views.
pub open spec fn schema_dec_eq(d1: SourceDec, d2: SourceDec) -> bool {
    match (d1, d2) {
        (SourceDec::MessageDec(m1), SourceDec::MessageDec(m2)) => {
            &&& m1.name@ == m2.name@
            &&& m1.comments.deep_view() == m2.comments.deep_view()
            &&& m1.fields@.len() == m2.fields@.len()
            &&& forall|j: int| 0 <= j < m1.fields@.len() ==> {
                &&& (#[trigger] m1.fields@[j]).var.name@ == m2.fields@[j].var.name@
                &&& m1.fields@[j].var.tag == m2.fields@[j].var.tag
                &&& m1.fields@[j].field_number == m2.fields@[j].field_number
                &&& m1.fields@[j].comments.deep_view() == m2.fields@[j].comments.deep_view()
            }
        },
    }
}


} // verus!
