//! The assembler: source text to tokens, and tokens to an image.

use vstd::prelude::*;

use crate::image::{magic, push_magic};
use crate::opcode::OpCode;
use crate::text::{
    chars_of, decimal, is_space, parse_byte, push_decimal, push_str, read_byte, space, text_of,
    upper_of, uppercase,
};

verus! {

/// What a token of source stands for.
#[derive(Debug, Clone)]
pub enum TokenKind {
    /// An instruction.
    Op(OpCode),
    /// A literal byte.
    Int(u8),
    /// The definition of a label at the current address.
    LabelDef(String),
    /// A use of a label, to be replaced by its address.
    LabelRef(String),
}

/// A token, with the 1-based line of source it came from.
#[derive(Debug, Clone)]
pub struct Token {
    pub kind: TokenKind,
    pub line: usize,
}

/// A token kind as plain values.
pub enum Lexeme {
    Op(OpCode),
    Int(u8),
    Def(Seq<char>),
    Ref(Seq<char>),
}

impl View for TokenKind {
    type V = Lexeme;

    open spec fn view(&self) -> Lexeme {
        match self {
            TokenKind::Op(op) => Lexeme::Op(*op),
            TokenKind::Int(n) => Lexeme::Int(*n),
            TokenKind::LabelDef(s) => Lexeme::Def(s@),
            TokenKind::LabelRef(s) => Lexeme::Ref(s@),
        }
    }
}

impl View for Token {
    type V = (Lexeme, usize);

    open spec fn view(&self) -> (Lexeme, usize) {
        (self.kind@, self.line)
    }
}

/// The tokens of `ts` as plain values.
pub open spec fn lexemes(ts: Seq<Token>) -> Seq<(Lexeme, usize)> {
    ts.map_values(|t: Token| t@)
}

impl Token {
    /// A token of the given kind from the given line.
    pub fn new(kind: TokenKind, line: usize) -> (r: Self)
        ensures
            r@ == (kind@, line),
    {
        Token { kind, line }
    }
}

// ---------------------------------------------------------------------------
// Scanning source into words

/// Where a scan of source stands: the words found so far with their lines,
/// the word being read, the current line, and whether the rest of the line
/// is a comment.
pub struct Scan {
    pub words: Seq<(Seq<char>, usize)>,
    pub word: Seq<char>,
    pub line: usize,
    pub comment: bool,
}

/// Ends the word being read, if there is one.
pub open spec fn flush(st: Scan) -> Scan {
    if st.word.len() > 0 {
        Scan { words: st.words.push((st.word, st.line)), word: Seq::empty(), ..st }
    } else {
        st
    }
}

/// The scan after one more character. A newline ends the word, the comment
/// and the line; `;` starts a comment that runs to the end of the line;
/// white space separates words.
pub open spec fn scan_char(st: Scan, c: char) -> Scan {
    if c == '\n' {
        let f = flush(st);
        Scan { line: (f.line + 1) as usize, comment: false, ..f }
    } else if st.comment {
        st
    } else if c == ';' {
        Scan { comment: true, ..flush(st) }
    } else if is_space(c) {
        flush(st)
    } else {
        Scan { word: st.word.push(c), ..st }
    }
}

/// The scan of `s` from its first character, on line 1.
pub open spec fn scan(s: Seq<char>) -> Scan
    decreases s.len(),
{
    if s.len() == 0 {
        Scan { words: Seq::empty(), word: Seq::empty(), line: 1, comment: false }
    } else {
        scan_char(scan(s.drop_last()), s.last())
    }
}

/// The words of source `s`, each with its line: the runs of characters
/// that are neither white space nor inside a comment.
pub open spec fn words(s: Seq<char>) -> Seq<(Seq<char>, usize)> {
    flush(scan(s)).words
}

/// The line counter of a scan never passes the number of characters read,
/// plus one.
proof fn lemma_scan_line(s: Seq<char>)
    requires
        s.len() < usize::MAX,
    ensures
        scan(s).line <= s.len() + 1,
        scan(s).line >= 1,
    decreases s.len(),
{
    if s.len() > 0 {
        lemma_scan_line(s.drop_last());
    }
}

/// The words of `s`, with their lines.
fn split_words(s: &Vec<char>) -> (r: Vec<(Vec<char>, usize)>)
    requires
        s@.len() < usize::MAX,
    ensures
        r@.map_values(|w: (Vec<char>, usize)| (w.0@, w.1)) == words(s@),
{
    let mut out: Vec<(Vec<char>, usize)> = Vec::new();
    let mut word: Vec<char> = Vec::new();
    let mut line: usize = 1;
    let mut comment = false;
    let mut i: usize = 0;
    while i < s.len()
        invariant
            i <= s@.len() < usize::MAX,
            ({
                let st = scan(s@.subrange(0, i as int));
                &&& out@.map_values(|w: (Vec<char>, usize)| (w.0@, w.1)) == st.words
                &&& word@ == st.word
                &&& line == st.line
                &&& comment == st.comment
            }),
        decreases s.len() - i,
    {
        let c = s[i];
        let ghost pre = s@.subrange(0, i as int);
        let ghost before = out@.map_values(|w: (Vec<char>, usize)| (w.0@, w.1));
        proof {
            assert(s@.subrange(0, i + 1).drop_last() =~= pre);
            lemma_scan_line(pre);
        }
        if c == '\n' || (!comment && (c == ';' || space(c))) {
            if word.len() > 0 {
                let w = word;
                word = Vec::new();
                out.push((w, line));
                assert(out@.map_values(|w: (Vec<char>, usize)| (w.0@, w.1)) =~= before.push(
                    (w@, line),
                ));
            }
            if c == '\n' {
                line = line + 1;
                comment = false;
            } else if c == ';' {
                comment = true;
            }
        } else if !comment {
            word.push(c);
        }
        i = i + 1;
    }
    assert(s@.subrange(0, s@.len() as int) =~= s@);
    let ghost before = out@.map_values(|w: (Vec<char>, usize)| (w.0@, w.1));
    if word.len() > 0 {
        out.push((word, line));
        assert(out@.map_values(|w: (Vec<char>, usize)| (w.0@, w.1)) =~= before.push(
            (word@, line),
        ));
    }
    out
}

// ---------------------------------------------------------------------------
// Classifying words

/// The error for a malformed hex literal on `line`, whose digits are `text`.
pub open spec fn invalid_hex_message(line: usize, text: Seq<char>) -> Seq<char> {
    "Line "@ + decimal(line as nat) + ": Invalid hex number '"@ + text + "'"@
}

/// The error for a use of the undefined label `name` on `line`.
pub open spec fn unknown_label_message(line: usize, name: Seq<char>) -> Seq<char> {
    "Line "@ + decimal(line as nat) + ": Unknown label '"@ + name + "'"@
}

/// `w` starts with the hex prefix `0X`.
pub open spec fn hex_prefixed(w: Seq<char>) -> bool {
    w.len() >= 2 && w[0] == '0' && w[1] == 'X'
}

/// What an upper-cased word of source stands for, in this order: a
/// mnemonic; a hex literal after `0X`, which must be a valid byte; a decimal
/// byte; a label definition, ending in `:`; else a use of a label.
pub open spec fn classify(w: Seq<char>, line: usize) -> Result<Lexeme, Seq<char>> {
    match OpCode::named(w) {
        Some(op) => Ok(Lexeme::Op(op)),
        None => if hex_prefixed(w) {
            match parse_byte(w.skip(2), 16) {
                Some(n) => Ok(Lexeme::Int(n)),
                None => Err(invalid_hex_message(line, w.skip(2))),
            }
        } else {
            match parse_byte(w, 10) {
                Some(n) => Ok(Lexeme::Int(n)),
                None => if w.len() > 0 && w.last() == ':' {
                    Ok(Lexeme::Def(w.drop_last()))
                } else {
                    Ok(Lexeme::Ref(w))
                },
            }
        },
    }
}

/// Builds the error text for a malformed hex literal.
fn invalid_hex(line: usize, text: &Vec<char>) -> (r: String)
    ensures
        r@ == invalid_hex_message(line, text@),
{
    let mut m: Vec<char> = Vec::new();
    push_str(&mut m, "Line ");
    push_decimal(&mut m, line);
    push_str(&mut m, ": Invalid hex number '");
    let ghost before = m@;
    let mut i: usize = 0;
    while i < text.len()
        invariant
            i <= text@.len(),
            m@ == before + text@.subrange(0, i as int),
        decreases text.len() - i,
    {
        m.push(text[i]);
        assert(text@.subrange(0, i + 1) =~= text@.subrange(0, i as int).push(text@[i as int]));
        i = i + 1;
    }
    assert(text@.subrange(0, text@.len() as int) =~= text@);
    push_str(&mut m, "'");
    assert(m@ =~= invalid_hex_message(line, text@));
    text_of(&m)
}

/// Classifies an upper-cased word of source found on `line`.
pub fn classify_word(word: &str, line: usize) -> (r: Result<Token, String>)
    ensures
        match classify(word@, line) {
            Ok(l) => r matches Ok(t) && t@ == (l, line),
            Err(e) => r matches Err(m) && m@ == e,
        },
{
    let w = chars_of(word);
    if let Some(op) = OpCode::from_mnemonic(&w) {
        return Ok(Token::new(TokenKind::Op(op), line));
    }
    if w.len() >= 2 && w[0] == '0' && w[1] == 'X' {
        let mut digits: Vec<char> = Vec::new();
        let mut i: usize = 2;
        while i < w.len()
            invariant
                2 <= i <= w@.len(),
                digits@ == w@.subrange(2, i as int),
            decreases w.len() - i,
        {
            digits.push(w[i]);
            assert(w@.subrange(2, i + 1) =~= w@.subrange(2, i as int).push(w@[i as int]));
            i = i + 1;
        }
        assert(digits@ =~= w@.skip(2));
        return match read_byte(&digits, 16) {
            Some(n) => Ok(Token::new(TokenKind::Int(n), line)),
            None => Err(invalid_hex(line, &digits)),
        };
    }
    if let Some(n) = read_byte(&w, 10) {
        return Ok(Token::new(TokenKind::Int(n), line));
    }
    let n = w.len();
    if n > 0 && w[n - 1] == ':' {
        let mut name = w;
        name.pop();
        return Ok(Token::new(TokenKind::LabelDef(text_of(&name)), line));
    }
    Ok(Token::new(TokenKind::LabelRef(text_of(&w)), line))
}

/// The tokens of the words `ws`, each upper-cased and classified in order;
/// the first error stops it.
pub open spec fn lex(ws: Seq<(Seq<char>, usize)>) -> Result<Seq<(Lexeme, usize)>, Seq<char>>
    decreases ws.len(),
{
    if ws.len() == 0 {
        Ok(Seq::empty())
    } else {
        match lex(ws.drop_last()) {
            Err(e) => Err(e),
            Ok(ts) => match classify(upper_of(ws.last().0), ws.last().1) {
                Err(e) => Err(e),
                Ok(l) => Ok(ts.push((l, ws.last().1))),
            },
        }
    }
}

/// An error in a prefix of the words is the error of all of them.
proof fn lemma_lex_err(ws: Seq<(Seq<char>, usize)>, k: int)
    requires
        0 <= k <= ws.len(),
        lex(ws.subrange(0, k)) is Err,
    ensures
        lex(ws) == lex(ws.subrange(0, k)),
    decreases ws.len() - k,
{
    if k < ws.len() {
        assert(ws.subrange(0, k + 1).drop_last() =~= ws.subrange(0, k));
        lemma_lex_err(ws, k + 1);
    } else {
        assert(ws.subrange(0, k) =~= ws);
    }
}

/// The tokens of source `s`.
pub open spec fn tokenize(s: Seq<char>) -> Result<Seq<(Lexeme, usize)>, Seq<char>> {
    lex(words(s))
}

/// Splits source into tokens: each word, upper-cased, becomes an
/// instruction, a byte, a label definition or a label use. Fails on the
/// first malformed hex literal, naming its line.
pub fn parse(input: String) -> (r: Result<Vec<Token>, String>)
    requires
        input@.len() < usize::MAX,
    ensures
        match tokenize(input@) {
            Ok(ts) => r matches Ok(v) && lexemes(v@) == ts,
            Err(e) => r matches Err(m) && m@ == e,
        },
{
    let chars = chars_of(input.as_str());
    let ws = split_words(&chars);
    let ghost wv = ws@.map_values(|w: (Vec<char>, usize)| (w.0@, w.1));
    let mut tokens: Vec<Token> = Vec::new();
    let mut i: usize = 0;
    assert(wv.subrange(0, 0) =~= Seq::<(Seq<char>, usize)>::empty());
    assert(lexemes(tokens@) =~= Seq::<(Lexeme, usize)>::empty());
    while i < ws.len()
        invariant
            i <= ws@.len(),
            wv == ws@.map_values(|w: (Vec<char>, usize)| (w.0@, w.1)),
            wv == words(input@),
            lex(wv.subrange(0, i as int)) == Ok::<Seq<(Lexeme, usize)>, Seq<char>>(
                lexemes(tokens@),
            ),
        decreases ws.len() - i,
    {
        let ghost pre = wv.subrange(0, i as int);
        assert(wv.subrange(0, i + 1).drop_last() =~= pre);
        assert(wv.subrange(0, i + 1).last() == wv[i as int]);
        let text = text_of(&ws[i].0);
        let up = uppercase(text.as_str());
        let line = ws[i].1;
        match classify_word(up.as_str(), line) {
            Ok(t) => {
                tokens.push(t);
                assert(lexemes(tokens@) =~= lexemes(tokens@).drop_last().push(t@));
                assert(lexemes(tokens@).drop_last() =~= lex(pre)->Ok_0);
            },
            Err(e) => {
                proof {
                    lemma_lex_err(wv, i + 1);
                }
                return Err(e);
            },
        }
        i = i + 1;
    }
    assert(wv.subrange(0, ws@.len() as int) =~= wv);
    Ok(tokens)
}

// ---------------------------------------------------------------------------
// Resolving labels and encoding

/// The number of bytes that the tokens `s` occupy: one for each token but a
/// label definition.
pub open spec fn code_len(s: Seq<(Lexeme, usize)>) -> nat
    decreases s.len(),
{
    if s.len() == 0 {
        0
    } else {
        code_len(s.drop_last()) + if s.last().0 is Def {
            0nat
        } else {
            1nat
        }
    }
}

/// Each label definition of `s`, in order, with the address where it
/// stands: the number of bytes before it.
pub open spec fn label_table(s: Seq<(Lexeme, usize)>) -> Seq<(Seq<char>, nat)>
    decreases s.len(),
{
    if s.len() == 0 {
        Seq::empty()
    } else {
        let t = label_table(s.drop_last());
        match s.last().0 {
            Lexeme::Def(name) => t.push((name, code_len(s.drop_last()))),
            _ => t,
        }
    }
}

/// The address of the last entry for `name` in `table`, if any.
pub open spec fn lookup(table: Seq<(Seq<char>, nat)>, name: Seq<char>) -> Option<nat>
    decreases table.len(),
{
    if table.len() == 0 {
        None
    } else if table.last().0 == name {
        Some(table.last().1)
    } else {
        lookup(table.drop_last(), name)
    }
}

/// The address of label `name` in the tokens `s`: where its last
/// definition stands.
pub open spec fn label_address(s: Seq<(Lexeme, usize)>, name: Seq<char>) -> Option<nat> {
    lookup(label_table(s), name)
}

/// The bytes of the tokens `s`, with label uses looked up in `table` and
/// their addresses cut to one byte; or the line and name of the first use of
/// a label that `table` lacks.
pub open spec fn encode(s: Seq<(Lexeme, usize)>, table: Seq<(Seq<char>, nat)>) -> Result<
    Seq<u8>,
    (usize, Seq<char>),
>
    decreases s.len(),
{
    if s.len() == 0 {
        Ok(Seq::empty())
    } else {
        match encode(s.drop_last(), table) {
            Err(e) => Err(e),
            Ok(b) => match s.last().0 {
                Lexeme::Def(_) => Ok(b),
                Lexeme::Op(op) => Ok(b.push(op.to_u8())),
                Lexeme::Int(n) => Ok(b.push(n)),
                Lexeme::Ref(name) => match lookup(table, name) {
                    Some(a) => Ok(b.push((a % 256) as u8)),
                    None => Err((s.last().1, name)),
                },
            },
        }
    }
}

/// The image of the tokens `s`: the header, then their bytes; or the error
/// for the first use of an undefined label.
pub open spec fn assemble(s: Seq<(Lexeme, usize)>) -> Result<Seq<u8>, Seq<char>> {
    match encode(s, label_table(s)) {
        Ok(b) => Ok(magic() + b),
        Err((line, name)) => Err(unknown_label_message(line, name)),
    }
}

/// Tokens occupy at most one byte each.
proof fn lemma_code_len_bound(s: Seq<(Lexeme, usize)>)
    ensures
        code_len(s) <= s.len(),
    decreases s.len(),
{
    if s.len() > 0 {
        lemma_code_len_bound(s.drop_last());
    }
}

/// An error in encoding a prefix of the tokens is the error of all of them.
proof fn lemma_encode_err(s: Seq<(Lexeme, usize)>, table: Seq<(Seq<char>, nat)>, k: int)
    requires
        0 <= k <= s.len(),
        encode(s.subrange(0, k), table) is Err,
    ensures
        encode(s, table) == encode(s.subrange(0, k), table),
    decreases s.len() - k,
{
    if k < s.len() {
        assert(s.subrange(0, k + 1).drop_last() =~= s.subrange(0, k));
        lemma_encode_err(s, table, k + 1);
    } else {
        assert(s.subrange(0, k) =~= s);
    }
}

/// The label table as plain values.
pub open spec fn table_view(t: Seq<(String, usize)>) -> Seq<(Seq<char>, nat)> {
    t.map_values(|p: (String, usize)| (p.0@, p.1 as nat))
}

/// Looks up `name` in the label table, last entry first.
fn find_label(table: &Vec<(String, usize)>, name: &String) -> (r: Option<usize>)
    ensures
        match lookup(table_view(table@), name@) {
            Some(a) => r == Some(a as usize) && a <= usize::MAX,
            None => r is None,
        },
{
    let ghost tv = table_view(table@);
    let mut j: usize = table.len();
    assert(tv.subrange(0, j as int) =~= tv);
    while j > 0
        invariant
            j <= table@.len(),
            tv == table_view(table@),
            lookup(tv, name@) == lookup(tv.subrange(0, j as int), name@),
        decreases j,
    {
        let ghost pre = tv.subrange(0, j as int);
        assert(pre.drop_last() =~= tv.subrange(0, j - 1));
        assert(pre.last() == (table@[j - 1].0@, table@[j - 1].1 as nat));
        if table[j - 1].0 == *name {
            return Some(table[j - 1].1);
        }
        j = j - 1;
    }
    assert(tv.subrange(0, 0) =~= Seq::<(Seq<char>, nat)>::empty());
    None
}

/// Builds the error text for a use of an undefined label.
fn unknown_label(line: usize, name: &String) -> (r: String)
    ensures
        r@ == unknown_label_message(line, name@),
{
    let mut m: Vec<char> = Vec::new();
    push_str(&mut m, "Line ");
    push_decimal(&mut m, line);
    push_str(&mut m, ": Unknown label '");
    push_str(&mut m, name.as_str());
    push_str(&mut m, "'");
    assert(m@ =~= unknown_label_message(line, name@));
    text_of(&m)
}

/// Encodes tokens into an image. A first pass gives each label definition
/// the address of the next byte; a second emits the header, then one byte
/// for each token but a definition: an opcode, a literal, or a label's
/// address cut to one byte. Fails on the first use of a label that is
/// defined nowhere, naming it and its line.
pub fn resolve(tokens: Vec<Token>) -> (r: Result<Vec<u8>, String>)
    ensures
        match assemble(lexemes(tokens@)) {
            Ok(b) => r matches Ok(v) && v@ == b,
            Err(e) => r matches Err(m) && m@ == e,
        },
{
    let ghost s = lexemes(tokens@);
    let mut labels: Vec<(String, usize)> = Vec::new();
    let mut address: usize = 0;
    let mut i: usize = 0;
    while i < tokens.len()
        invariant
            i <= tokens@.len(),
            s == lexemes(tokens@),
            table_view(labels@) == label_table(s.subrange(0, i as int)),
            address == code_len(s.subrange(0, i as int)),
        decreases tokens.len() - i,
    {
        let ghost pre = s.subrange(0, i as int);
        proof {
            assert(s.subrange(0, i + 1).drop_last() =~= pre);
            assert(s.subrange(0, i + 1).last() == tokens@[i as int]@);
            lemma_code_len_bound(pre);
        }
        match &tokens[i].kind {
            TokenKind::LabelDef(label) => {
                let ghost before = table_view(labels@);
                labels.push((label.clone(), address));
                assert(table_view(labels@) =~= before.push((label@, address as nat)));
            },
            _ => {
                address = address + 1;
            },
        }
        i = i + 1;
    }
    assert(s.subrange(0, s.len() as int) =~= s);
    let ghost table = label_table(s);
    let mut code: Vec<u8> = Vec::new();
    i = 0;
    assert(s.subrange(0, 0) =~= Seq::<(Lexeme, usize)>::empty());
    while i < tokens.len()
        invariant
            i <= tokens@.len(),
            s == lexemes(tokens@),
            table == label_table(s),
            table_view(labels@) == table,
            encode(s.subrange(0, i as int), table) == Ok::<Seq<u8>, (usize, Seq<char>)>(code@),
        decreases tokens.len() - i,
    {
        let ghost pre = s.subrange(0, i as int);
        proof {
            assert(s.subrange(0, i + 1).drop_last() =~= pre);
            assert(s.subrange(0, i + 1).last() == tokens@[i as int]@);
        }
        match &tokens[i].kind {
            TokenKind::LabelDef(_) => {},
            TokenKind::LabelRef(label) => match find_label(&labels, label) {
                Some(value) => {
                    code.push((value % 256) as u8);
                },
                None => {
                    proof {
                        lemma_encode_err(s, table, i + 1);
                    }
                    return Err(unknown_label(tokens[i].line, label));
                },
            },
            TokenKind::Op(opcode) => {
                code.push(opcode.to_u8());
            },
            TokenKind::Int(number) => {
                code.push(*number);
            },
        }
        i = i + 1;
    }
    assert(s.subrange(0, s.len() as int) =~= s);
    let mut binary: Vec<u8> = Vec::new();
    push_magic(&mut binary);
    binary.append(&mut code);
    Ok(binary)
}

// ---------------------------------------------------------------------------
// Properties of resolution

/// Every label that `s` uses is defined somewhere in `s`.
pub open spec fn labels_defined(s: Seq<(Lexeme, usize)>) -> bool {
    forall|i: int|
        0 <= i < s.len() ==> ((#[trigger] s[i]).0 matches Lexeme::Ref(name) ==> label_address(
            s,
            name,
        ) is Some)
}

/// Encoding succeeds where `table` has every label used, and gives one byte
/// for each token but a label definition.
pub proof fn lemma_encode_ok(s: Seq<(Lexeme, usize)>, table: Seq<(Seq<char>, nat)>)
    requires
        forall|i: int|
            0 <= i < s.len() ==> ((#[trigger] s[i]).0 matches Lexeme::Ref(name) ==> lookup(
                table,
                name,
            ) is Some),
    ensures
        encode(s, table) is Ok,
        encode(s, table)->Ok_0.len() == code_len(s),
    decreases s.len(),
{
    if s.len() > 0 {
        let p = s.drop_last();
        assert forall|i: int| 0 <= i < p.len() implies ((#[trigger] p[i]).0 matches Lexeme::Ref(
            name,
        ) ==> lookup(table, name) is Some) by {
            assert(p[i] == s[i]);
        }
        lemma_encode_ok(p, table);
        assert(s.last() == s[s.len() - 1]);
    }
}

/// Encoding that succeeds gives one byte for each token but a label
/// definition.
proof fn lemma_encode_len(s: Seq<(Lexeme, usize)>, table: Seq<(Seq<char>, nat)>)
    requires
        encode(s, table) is Ok,
    ensures
        encode(s, table)->Ok_0.len() == code_len(s),
    decreases s.len(),
{
    if s.len() > 0 {
        lemma_encode_len(s.drop_last(), table);
    }
}

/// Resolution is deterministic: tokens whose labels are all defined
/// assemble, and equal tokens assemble to the same image, whose instruction
/// stream holds one byte for each token but a label definition.
pub proof fn lemma_resolve_deterministic(a: Seq<(Lexeme, usize)>, b: Seq<(Lexeme, usize)>)
    requires
        a == b,
        labels_defined(a),
    ensures
        assemble(a) is Ok,
        assemble(a) == assemble(b),
        assemble(a)->Ok_0.len() == 4 + code_len(a),
{
    lemma_encode_ok(a, label_table(a));
}

/// The byte that encoding emits for the token at `i` stands at index
/// `code_len` of the tokens before it; for a use of a label it is the
/// label's address in `table`, cut to one byte.
proof fn lemma_encode_ref(s: Seq<(Lexeme, usize)>, table: Seq<(Seq<char>, nat)>, i: int)
    requires
        0 <= i < s.len(),
        encode(s, table) is Ok,
        s[i].0 is Ref,
    ensures
        lookup(table, s[i].0->Ref_0) is Some,
        code_len(s.subrange(0, i)) < encode(s, table)->Ok_0.len(),
        encode(s, table)->Ok_0[code_len(s.subrange(0, i)) as int] == (lookup(
            table,
            s[i].0->Ref_0,
        )->Some_0 % 256) as u8,
    decreases s.len(),
{
    let p = s.drop_last();
    lemma_encode_len(s, table);
    if i < s.len() - 1 {
        lemma_encode_ref(p, table, i);
        assert(p.subrange(0, i) =~= s.subrange(0, i));
        assert(p[i] == s[i]);
    } else {
        assert(s.subrange(0, i) =~= p);
        lemma_encode_len(p, table);
    }
}

/// The address of a label is where its last definition stands.
proof fn lemma_last_definition(s: Seq<(Lexeme, usize)>, k: int, name: Seq<char>)
    requires
        0 <= k < s.len(),
        s[k].0 == Lexeme::Def(name),
        forall|j: int| k < j < s.len() ==> (#[trigger] s[j]).0 != Lexeme::Def(name),
    ensures
        label_address(s, name) == Some(code_len(s.subrange(0, k))),
    decreases s.len(),
{
    let p = s.drop_last();
    if k < s.len() - 1 {
        assert forall|j: int| k < j < p.len() implies (#[trigger] p[j]).0 != Lexeme::Def(name) by {
            assert(p[j] == s[j]);
        }
        lemma_last_definition(p, k, name);
        assert(p.subrange(0, k) =~= s.subrange(0, k));
        assert(s.last() == s[s.len() - 1]);
        let t = label_table(p);
        if let Lexeme::Def(other) = s.last().0 {
            assert(other != name);
            assert(t.push((other, code_len(p))).drop_last() =~= t);
        }
    } else {
        assert(s.subrange(0, k) =~= p);
        assert(s.last() == s[k]);
    }
}

/// Forward and backward uses of a label resolve alike: where `name` is last
/// defined at `k`, a use at `i`, whether before `k` or after it, encodes as
/// the address of that definition, the number of bytes before it.
pub proof fn lemma_reference_resolves(s: Seq<(Lexeme, usize)>, k: int, i: int, name: Seq<char>)
    requires
        0 <= k < s.len(),
        0 <= i < s.len(),
        s[k].0 == Lexeme::Def(name),
        forall|j: int| k < j < s.len() ==> (#[trigger] s[j]).0 != Lexeme::Def(name),
        s[i].0 == Lexeme::Ref(name),
        assemble(s) is Ok,
    ensures
        assemble(s)->Ok_0[4 + code_len(s.subrange(0, i)) as int] == (code_len(s.subrange(0, k)) % 256) as u8,
{
    lemma_last_definition(s, k, name);
    let table = label_table(s);
    lemma_encode_ref(s, table, i);
    let b = encode(s, table)->Ok_0;
    assert((magic() + b)[4 + code_len(s.subrange(0, i)) as int] == b[code_len(s.subrange(0, i)) as int]);
}

/// A failed encoding names a use of a label that `table` lacks, with its
/// line.
proof fn lemma_encode_err_names(s: Seq<(Lexeme, usize)>, table: Seq<(Seq<char>, nat)>)
    requires
        encode(s, table) is Err,
    ensures
        exists|j: int|
            0 <= j < s.len() && #[trigger] s[j] == (Lexeme::Ref(encode(s, table)->Err_0.1), encode(
                s,
                table,
            )->Err_0.0) && lookup(table, encode(s, table)->Err_0.1) is None,
    decreases s.len(),
{
    let p = s.drop_last();
    if encode(p, table) is Err {
        lemma_encode_err_names(p, table);
        let j = choose|j: int|
            0 <= j < p.len() && #[trigger] p[j] == (Lexeme::Ref(encode(p, table)->Err_0.1), encode(
                p,
                table,
            )->Err_0.0) && lookup(table, encode(p, table)->Err_0.1) is None;
        assert(s[j] == p[j]);
    } else {
        assert(s[s.len() - 1] == s.last());
    }
}

/// A use of a label that `table` lacks makes encoding fail, with the error
/// of such a use at or before it.
proof fn lemma_encode_missing(s: Seq<(Lexeme, usize)>, table: Seq<(Seq<char>, nat)>, i: int)
    requires
        0 <= i < s.len(),
        s[i].0 matches Lexeme::Ref(name) && lookup(table, name) is None,
    ensures
        encode(s, table) is Err,
        exists|j: int|
            0 <= j <= i && #[trigger] s[j] == (Lexeme::Ref(encode(s, table)->Err_0.1), encode(
                s,
                table,
            )->Err_0.0) && lookup(table, encode(s, table)->Err_0.1) is None,
{
    let q = s.subrange(0, i + 1);
    assert(q.drop_last() =~= s.subrange(0, i));
    assert(q.last() == s[i]);
    assert(encode(q, table) is Err);
    lemma_encode_err_names(q, table);
    lemma_encode_err(s, table, i + 1);
    let e = encode(s, table)->Err_0;
    let j = choose|j: int|
        0 <= j < q.len() && #[trigger] q[j] == (Lexeme::Ref(e.1), e.0) && lookup(table, e.1) is None;
    assert(s[j] == q[j]);
}

/// A use of a label defined nowhere makes resolution fail, with no image,
/// and the error names such a use, at or before this one, and its line.
pub proof fn lemma_undefined_label_fails(s: Seq<(Lexeme, usize)>, i: int, name: Seq<char>)
    requires
        0 <= i < s.len(),
        s[i].0 == Lexeme::Ref(name),
        label_address(s, name) is None,
    ensures
        assemble(s) is Err,
        exists|j: int|
            0 <= j <= i && (#[trigger] s[j]).0 is Ref && label_address(s, s[j].0->Ref_0) is None
                && assemble(s) == Err::<Seq<u8>, Seq<char>>(
                unknown_label_message(s[j].1, s[j].0->Ref_0),
            ),
{
    let table = label_table(s);
    lemma_encode_missing(s, table, i);
    let e = encode(s, table)->Err_0;
    let j = choose|j: int|
        0 <= j <= i && #[trigger] s[j] == (Lexeme::Ref(e.1), e.0) && lookup(table, e.1) is None;
    assert(s[j] == (Lexeme::Ref(e.1), e.0));
}

} // verus!
