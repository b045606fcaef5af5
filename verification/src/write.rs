//! Options for the layout of the XML files the library writes.

use vstd::prelude::*;

verus! {

/// The quote character used around the values of the XML declaration.
#[derive(Debug, Clone, Copy, PartialEq, Eq, Structural)]
pub enum QuoteChar {
    /// Single quotes: `'`.
    Single,
    /// Double quotes: `"`.
    Double,
}

/// The layout of written XML files: the whitespace of one level of indentation, and
/// the quote character of the XML declaration.
#[derive(Debug)]
pub struct WriteOptions {
    indent_str: String,
    whitespace_char: u8,
    whitespace_count: usize,
    quote_style: QuoteChar,
}

/// True when `s` is one ASCII character, repeated at least once.
pub open spec fn is_repeated_ascii(s: Seq<char>) -> bool {
    &&& s.len() > 0
    &&& (s[0] as u32) < 128
    &&& forall|i: int| 0 <= i < s.len() ==> #[trigger] s[i] == s[0]
}

impl WriteOptions {
    #[verifier::type_invariant]
    closed spec fn inv(self) -> bool {
        &&& is_repeated_ascii(self.indent_str@)
        &&& self.whitespace_char as u32 == self.indent_str@[0] as u32
        &&& self.whitespace_count == self.indent_str@.len()
    }

    /// The whitespace of one level of indentation.
    pub closed spec fn spec_indent(self) -> Seq<char> {
        self.indent_str@
    }

    /// The character of the indentation whitespace, as a byte.
    pub closed spec fn spec_indent_char(self) -> u8 {
        self.whitespace_char
    }

    /// The quote character of the XML declaration.
    pub closed spec fn spec_quote(self) -> QuoteChar {
        self.quote_style
    }

    /// Sets the whitespace of one level of indentation, such as `"\t"` or `"  "`.
    pub fn whitespace(self, indent_str: &str) -> (res: Self)
        requires
            is_repeated_ascii(indent_str@),
        ensures
            res.spec_indent() == indent_str@,
            res.spec_quote() == self.spec_quote(),
    {
        let first = indent_str.get_char(0);
        let count = indent_str.unicode_len();
        WriteOptions {
            indent_str: indent_str.to_string(),
            whitespace_char: first as u8,
            whitespace_count: count,
            quote_style: self.quote_style,
        }
    }

    /// Sets the quote character of the XML declaration.
    pub fn quote_char(self, quote_style: QuoteChar) -> (res: Self)
        ensures
            res.spec_indent() == self.spec_indent(),
            res.spec_quote() == quote_style,
    {
        proof {
            use_type_invariant(&self);
        }
        WriteOptions { quote_style, ..self }
    }

    /// The whitespace of one level of indentation.
    pub fn indent_str(&self) -> (res: &str)
        ensures
            res@ == self.spec_indent(),
            is_repeated_ascii(res@),
    {
        proof {
            use_type_invariant(self);
        }
        self.indent_str.as_str()
    }

    /// The character of the indentation whitespace.
    pub fn whitespace_char(&self) -> (res: u8)
        ensures
            res == self.spec_indent_char(),
            res as u32 == self.spec_indent()[0] as u32,
            is_repeated_ascii(self.spec_indent()),
    {
        proof {
            use_type_invariant(self);
        }
        self.whitespace_char
    }

    /// How many times the indentation character makes one level.
    pub fn whitespace_count(&self) -> (res: usize)
        ensures
            res == self.spec_indent().len(),
    {
        proof {
            use_type_invariant(self);
        }
        self.whitespace_count
    }

    /// The quote character of the XML declaration.
    pub fn quote_style(&self) -> (res: QuoteChar)
        ensures
            res == self.spec_quote(),
    {
        self.quote_style
    }
}

impl Clone for WriteOptions {
    fn clone(&self) -> (res: Self)
        ensures
            res.spec_indent() == self.spec_indent(),
            res.spec_quote() == self.spec_quote(),
    {
        proof {
            use_type_invariant(self);
        }
        WriteOptions {
            indent_str: self.indent_str.clone(),
            whitespace_char: self.whitespace_char,
            whitespace_count: self.whitespace_count,
            quote_style: self.quote_style,
        }
    }
}

impl Default for WriteOptions {
    /// One tab of indentation, and double quotes.
    fn default() -> (res: Self)
        ensures
            res.spec_indent() == seq!['\t'],
            res.spec_indent_char() == 9,
            res.spec_quote() == QuoteChar::Double,
    {
        let tab = "\t";
        proof {
            reveal_strlit("\t");
        }
        WriteOptions { indent_str: tab.to_string(), whitespace_char: 9u8, whitespace_count: 1, quote_style: QuoteChar::Double }
    }
}

} // verus!
