//! File names for glyphs and layers, after the UFO specification's convention for
//! turning user names into file names.

use vstd::prelude::*;

use crate::text::{push_char, spec_split, split_on, str_eq};

verus! {

/// The longest file name, in bytes.
pub const MAX_FILE_NAME_LEN: usize = 255;

/// The numbers tried to tell clashing file names apart stay below this one.
pub const MAX_CLASH_COUNTER: u64 = 1_000_000_000_000_000;

/// The text that `str::to_lowercase` gives for `s`.
pub uninterp spec fn lowercase(s: Seq<char>) -> Seq<char>;

/// Whether `char::is_uppercase` holds of `c`.
pub uninterp spec fn is_upper(c: char) -> bool;

/// `str::to_lowercase`.
#[verifier::external_body]
pub fn to_lowercase(s: &str) -> (res: String)
    ensures
        res@ == lowercase(s@),
{
    s.to_lowercase()
}

/// `char::is_uppercase`.
#[verifier::external_body]
fn char_is_uppercase(c: char) -> (res: bool)
    ensures
        res == is_upper(c),
{
    c.is_uppercase()
}

/// True for the characters that a file name may not hold: control characters and
/// `" * + / : < > ? [ \ ] |`.
pub open spec fn is_illegal_char(c: char) -> bool {
    ||| (c as u32) < 32
    ||| (c as u32) == 0x7f
    ||| c == '"' || c == '*' || c == '+' || c == '/' || c == ':' || c == '<' || c == '>'
    ||| c == '?' || c == '[' || c == '\\' || c == ']' || c == '|'
}

/// Appends one character of a user name to the file name made so far: an underscore
/// for an illegal character or for a period that would start the name, the character
/// and an underscore for an upper-case one, else the character.
pub open spec fn sanitize_step(acc: Seq<char>, c: char) -> Seq<char> {
    if c == '.' && acc.len() == 0 {
        acc.push('_')
    } else if is_illegal_char(c) {
        acc.push('_')
    } else if is_upper(c) {
        acc.push(c).push('_')
    } else {
        acc.push(c)
    }
}

/// The file name made so far, `acc`, with the characters of `name` appended.
pub open spec fn sanitize(acc: Seq<char>, name: Seq<char>) -> Seq<char>
    decreases name.len(),
{
    if name.len() == 0 {
        acc
    } else {
        sanitize(sanitize_step(acc, name[0]), name.drop_first())
    }
}

/// True for the parts of a file name that some systems reserve.
pub open spec fn is_reserved(part: Seq<char>) -> bool {
    let l = lowercase(part);
    ||| l == "con"@ || l == "prn"@ || l == "aux"@ || l == "clock$"@ || l == "nul"@ || l == "a:-z:"@
    ||| l == "com1"@ || l == "lpt1"@ || l == "lpt2"@ || l == "lpt3"@ || l == "com2"@ || l == "com3"@
    ||| l == "com4"@
}

/// A part of a file name, with an underscore before it where it is reserved.
pub open spec fn escape_part(part: Seq<char>) -> Seq<char> {
    if is_reserved(part) {
        seq!['_'] + part
    } else {
        part
    }
}

/// The parts joined by periods.
pub open spec fn join_dots(parts: Seq<Seq<char>>) -> Seq<char>
    decreases parts.len(),
{
    if parts.len() == 0 {
        Seq::empty()
    } else if parts.len() == 1 {
        parts[0]
    } else {
        join_dots(parts.drop_last()).push('.') + parts.last()
    }
}

/// The name with each of its period-separated parts escaped where reserved.
pub open spec fn escape_reserved(s: Seq<char>) -> Seq<char> {
    join_dots(spec_split(s, '.').map_values(|p: Seq<char>| escape_part(p)))
}

/// The number of bytes of the UTF-8 encoding of `c`.
pub open spec fn utf8_len_char(c: char) -> nat {
    if (c as u32) < 0x80 {
        1
    } else if (c as u32) < 0x800 {
        2
    } else if (c as u32) < 0x10000 {
        3
    } else {
        4
    }
}

/// The number of bytes of the UTF-8 encoding of `s`.
pub open spec fn utf8_len(s: Seq<char>) -> nat
    decreases s.len(),
{
    if s.len() == 0 {
        0
    } else {
        utf8_len(s.drop_last()) + utf8_len_char(s.last())
    }
}

/// The longest beginning of `s` whose encoding takes at most `max` bytes.
pub open spec fn clip(s: Seq<char>, max: int) -> Seq<char>
    decreases s.len(),
{
    if utf8_len(s) <= max || s.len() == 0 {
        s
    } else {
        clip(s.drop_last(), max)
    }
}

/// `k` in decimal, padded with zeros to `n` digits (and cut to its last `n` digits).
pub open spec fn dec_pad(k: nat, n: nat) -> Seq<char>
    decreases n,
{
    if n == 0 {
        Seq::empty()
    } else {
        dec_pad(k / 10, (n - 1) as nat).push(((48 + k % 10) as int) as char)
    }
}

/// The texts of a list of strings.
pub open spec fn text_set(v: Seq<String>) -> Set<Seq<char>> {
    Set::new(|s: Seq<char>| exists|i: int| 0 <= i < v.len() && (#[trigger] v[i])@ == s)
}

/// True when the lowercased name is among the taken ones.
pub open spec fn taken(existing: Set<Seq<char>>, s: Seq<char>) -> bool {
    existing.contains(lowercase(s))
}

/// The stem of a file name: the prefix and the user name made safe, reserved parts
/// escaped, cut to leave room for the suffix.
pub open spec fn file_stem(name: Seq<char>, prefix: Seq<char>, suffix: Seq<char>) -> Seq<char> {
    clip(escape_reserved(sanitize(prefix, name)), MAX_FILE_NAME_LEN - utf8_len(suffix))
}

/// The numbered file name for a clash: the stem, cut to leave room for a fifteen-digit
/// counter and the suffix, the counter, the suffix.
pub open spec fn numbered(stem: Seq<char>, suffix: Seq<char>, k: nat) -> Seq<char> {
    clip(stem, MAX_FILE_NAME_LEN - 15 - utf8_len(suffix)) + dec_pad(k, 15) + suffix
}

/// The first numbered file name from counter `k` on that is not taken; past the
/// last counter, the last numbered name.
pub open spec fn first_free(stem: Seq<char>, suffix: Seq<char>, existing: Set<Seq<char>>, k: nat) -> Seq<char>
    decreases MAX_CLASH_COUNTER - k,
{
    if k >= MAX_CLASH_COUNTER {
        numbered(stem, suffix, (MAX_CLASH_COUNTER - 1) as nat)
    } else if !taken(existing, numbered(stem, suffix, k)) {
        numbered(stem, suffix, k)
    } else {
        first_free(stem, suffix, existing, k + 1)
    }
}

/// The file name for the user name `name`, between `prefix` and `suffix`: the stem
/// and the suffix, or, where that is taken (compared in lower case), the first free
/// numbered name.
pub open spec fn spec_file_name(
    name: Seq<char>,
    prefix: Seq<char>,
    suffix: Seq<char>,
    existing: Set<Seq<char>>,
) -> Seq<char> {
    let stem = file_stem(name, prefix, suffix);
    if !taken(existing, stem + suffix) {
        stem + suffix
    } else {
        first_free(stem, suffix, existing, 1)
    }
}

proof fn lemma_first_free_is_free(stem: Seq<char>, suffix: Seq<char>, existing: Set<Seq<char>>, k: nat, free: nat)
    requires
        k <= free < MAX_CLASH_COUNTER,
        !taken(existing, numbered(stem, suffix, free)),
    ensures
        !taken(existing, first_free(stem, suffix, existing, k)),
    decreases MAX_CLASH_COUNTER - k,
{
    if k < free && taken(existing, numbered(stem, suffix, k)) {
        lemma_first_free_is_free(stem, suffix, existing, k + 1, free);
    }
}

/// A new file name is free: compared in lower case, it is none of the names taken,
/// wherever one of the numbered names is free.
pub proof fn law_file_name_is_free(name: Seq<char>, prefix: Seq<char>, suffix: Seq<char>, existing: Set<Seq<char>>, free: nat)
    requires
        1 <= free < MAX_CLASH_COUNTER,
        !taken(existing, numbered(file_stem(name, prefix, suffix), suffix, free)),
    ensures
        !taken(existing, spec_file_name(name, prefix, suffix, existing)),
{
    let stem = file_stem(name, prefix, suffix);
    if taken(existing, stem + suffix) {
        lemma_first_free_is_free(stem, suffix, existing, 1, free);
    }
}

/// The file name made safe character by character, after `prefix`.
fn sanitize_name(name: &str, prefix: &str) -> (res: String)
    ensures
        res@ == sanitize(prefix@, name@),
{
    let chars = crate::text::chars_of(name);
    let mut out = crate::text::to_string(prefix);
    let mut i: usize = 0;
    assert(chars@.skip(0) =~= chars@);
    while i < chars.len()
        invariant
            i <= chars@.len(),
            chars@ == name@,
            sanitize(prefix@, name@) == sanitize(out@, chars@.skip(i as int)),
        decreases chars@.len() - i,
    {
        let c = chars[i];
        let ghost before = out@;
        if c == '.' && out.unicode_len() == 0 {
            push_char(&mut out, '_');
        } else if (c as u32) < 32 || (c as u32) == 0x7f || c == '"' || c == '*' || c == '+' || c == '/' || c == ':'
            || c == '<' || c == '>' || c == '?' || c == '[' || c == '\\' || c == ']' || c == '|' {
            push_char(&mut out, '_');
        } else if char_is_uppercase(c) {
            push_char(&mut out, c);
            push_char(&mut out, '_');
        } else {
            push_char(&mut out, c);
        }
        assert(out@ == sanitize_step(before, c));
        assert(chars@.skip(i as int).drop_first() =~= chars@.skip(i + 1));
        i += 1;
    }
    assert(chars@.skip(chars@.len() as int) =~= Seq::<char>::empty());
    out
}

/// Whether the part is reserved.
fn part_is_reserved(part: &str) -> (res: bool)
    ensures
        res == is_reserved(part@),
{
    let l = to_lowercase(part);
    let l = l.as_str();
    str_eq(l, "con") || str_eq(l, "prn") || str_eq(l, "aux") || str_eq(l, "clock$") || str_eq(l, "nul")
        || str_eq(l, "a:-z:") || str_eq(l, "com1") || str_eq(l, "lpt1") || str_eq(l, "lpt2") || str_eq(l, "lpt3")
        || str_eq(l, "com2") || str_eq(l, "com3") || str_eq(l, "com4")
}

/// The name with each of its period-separated parts escaped where reserved.
fn escape_reserved_parts(s: &str) -> (res: String)
    ensures
        res@ == escape_reserved(s@),
{
    let parts = split_on(s, '.');
    let ghost escaped = spec_split(s@, '.').map_values(|p: Seq<char>| escape_part(p));
    proof {
        crate::text::lemma_split_nonempty(s@, '.');
    }
    let mut out = String::new();
    let mut i: usize = 0;
    while i < parts.len()
        invariant
            i <= parts@.len(),
            parts@.len() == spec_split(s@, '.').len(),
            forall|k: int| 0 <= k < parts@.len() ==> #[trigger] parts@[k]@ == spec_split(s@, '.')[k],
            escaped == spec_split(s@, '.').map_values(|p: Seq<char>| escape_part(p)),
            out@ == join_dots(escaped.take(i as int)),
        decreases parts@.len() - i,
    {
        let ghost before = out@;
        if i > 0 {
            push_char(&mut out, '.');
        }
        if part_is_reserved(parts[i].as_str()) {
            push_char(&mut out, '_');
        }
        out = crate::text::concat(out.as_str(), parts[i].as_str());
        proof {
            let t = escaped.take(i + 1);
            assert(t.drop_last() =~= escaped.take(i as int));
            assert(t.last() == escape_part(parts@[i as int]@));
            if i == 0 {
                assert(out@ =~= escape_part(parts@[0]@));
            } else {
                assert(out@ =~= before.push('.') + escape_part(parts@[i as int]@));
            }
        }
        i += 1;
    }
    assert(escaped.take(parts@.len() as int) =~= escaped);
    out
}

/// The number of bytes of the UTF-8 encoding of `c`.
fn char_utf8_len(c: char) -> (res: usize)
    ensures
        res == utf8_len_char(c),
{
    let v = c as u32;
    if v < 0x80 {
        1
    } else if v < 0x800 {
        2
    } else if v < 0x10000 {
        3
    } else {
        4
    }
}

/// The longest beginning of `s` whose encoding takes at most `max` bytes.
fn clip_text(s: &str, max: usize) -> (res: String)
    requires
        max <= MAX_FILE_NAME_LEN,
    ensures
        res@ == clip(s@, max as int),
{
    let chars = crate::text::chars_of(s);
    let mut total: usize = 0;
    let mut n: usize = 0;
    assert(chars@.take(0) =~= Seq::<char>::empty());
    while n < chars.len()
        invariant
            n <= chars@.len(),
            chars@ == s@,
            max <= MAX_FILE_NAME_LEN,
            total == utf8_len(chars@.take(n as int)),
            total <= max,
        decreases chars@.len() - n,
    {
        assert(chars@.take(n + 1).drop_last() =~= chars@.take(n as int));
        let t = total + char_utf8_len(chars[n]);
        if t > max {
            proof {
                assert forall|m: int| n < m <= chars@.len() implies utf8_len(#[trigger] chars@.take(m)) > max by {
                    lemma_utf8_len_mono(chars@, n + 1, m);
                }
                lemma_clip(chars@, max as int, n as int);
            }
            return crate::text::string_of(&chars, 0, n);
        }
        total = t;
        n += 1;
    }
    assert(chars@.take(chars@.len() as int) =~= chars@);
    proof {
        lemma_clip(chars@, max as int, n as int);
    }
    crate::text::string_of(&chars, 0, n)
}

/// A longer beginning takes at least as many bytes.
proof fn lemma_utf8_len_mono(s: Seq<char>, a: int, b: int)
    requires
        0 <= a <= b <= s.len(),
    ensures
        utf8_len(s.take(a)) <= utf8_len(s.take(b)),
    decreases b - a,
{
    if a < b {
        assert(s.take(b).drop_last() =~= s.take(b - 1));
        lemma_utf8_len_mono(s, a, b - 1);
    }
}

/// The clip of `s` is its beginning of length `fits`, where that fits and no longer
/// beginning does.
proof fn lemma_clip(s: Seq<char>, max: int, fits: int)
    requires
        0 <= fits <= s.len(),
        utf8_len(s.take(fits)) <= max,
        forall|m: int| fits < m <= s.len() ==> utf8_len(#[trigger] s.take(m)) > max,
    ensures
        clip(s, max) == s.subrange(0, fits),
    decreases s.len(),
{
    if fits == s.len() {
        assert(s.take(fits) =~= s);
        assert(s.subrange(0, fits) =~= s);
    } else {
        assert(s.take(s.len() as int) =~= s);
        assert(utf8_len(s) > max);
        assert forall|m: int| fits < m <= s.drop_last().len() implies utf8_len(#[trigger] s.drop_last().take(m)) > max by {
            assert(s.drop_last().take(m) =~= s.take(m));
        }
        assert(s.drop_last().take(fits) =~= s.take(fits));
        lemma_clip(s.drop_last(), max, fits);
        assert(s.drop_last().subrange(0, fits) =~= s.subrange(0, fits));
    }
}

/// `k` in decimal, padded with zeros to `n` digits.
fn format_dec_pad(k: u64, n: usize) -> (res: Vec<char>)
    ensures
        res@ == dec_pad(k as nat, n as nat),
    decreases n,
{
    if n == 0 {
        Vec::new()
    } else {
        let mut v = format_dec_pad(k / 10, n - 1);
        let d: u32 = (k % 10) as u32;
        let c = match crate::numbers::char_from_u32(48 + d) {
            Some(c) => c,
            None => '0',
        };
        v.push(c);
        v
    }
}

/// Whether the lowercased name is among the taken ones.
fn is_taken(existing: &Vec<String>, s: &str) -> (res: bool)
    ensures
        res == taken(text_set(existing@), s@),
{
    let l = to_lowercase(s);
    let mut i: usize = 0;
    while i < existing.len()
        invariant
            i <= existing@.len(),
            l@ == lowercase(s@),
            forall|k: int| 0 <= k < i ==> existing@[k]@ != lowercase(s@),
        decreases existing@.len() - i,
    {
        if str_eq(existing[i].as_str(), l.as_str()) {
            assert(text_set(existing@).contains(lowercase(s@)));
            return true;
        }
        i += 1;
    }
    assert(!text_set(existing@).contains(lowercase(s@)));
    false
}

/// The numbered file name for a clash.
fn numbered_name(stem: &str, suffix: &str, k: u64) -> (res: String)
    requires
        utf8_len(suffix@) <= MAX_FILE_NAME_LEN - 15,
    ensures
        res@ == numbered(stem@, suffix@, k as nat),
{
    let room = MAX_FILE_NAME_LEN - 15 - suffix_len(suffix);
    let mut out = clip_text(stem, room);
    let digits = format_dec_pad(k, 15);
    let ghost start = out@;
    let mut i: usize = 0;
    while i < digits.len()
        invariant
            i <= digits@.len(),
            out@ == start + digits@.take(i as int),
        decreases digits@.len() - i,
    {
        push_char(&mut out, digits[i]);
        assert(digits@.take(i + 1) =~= digits@.take(i as int).push(digits@[i as int]));
        i += 1;
    }
    assert(digits@.take(digits@.len() as int) =~= digits@);
    crate::text::concat(out.as_str(), suffix)
}

/// The number of bytes of the UTF-8 encoding of `s`, where it is at most 255.
fn suffix_len(s: &str) -> (res: usize)
    requires
        utf8_len(s@) <= MAX_FILE_NAME_LEN,
    ensures
        res == utf8_len(s@),
{
    let chars = crate::text::chars_of(s);
    let mut total: usize = 0;
    let mut n: usize = 0;
    while n < chars.len()
        invariant
            n <= chars@.len(),
            chars@ == s@,
            total == utf8_len(chars@.take(n as int)),
            utf8_len(s@) <= MAX_FILE_NAME_LEN,
        decreases chars@.len() - n,
    {
        assert(chars@.take(n + 1).drop_last() =~= chars@.take(n as int));
        proof {
            lemma_utf8_len_prefix(chars@, n + 1);
        }
        total = total + char_utf8_len(chars[n]);
        n += 1;
    }
    assert(chars@.take(chars@.len() as int) =~= chars@);
    total
}

/// A beginning of `s` takes no more bytes than `s`.
proof fn lemma_utf8_len_prefix(s: Seq<char>, m: int)
    requires
        0 <= m <= s.len(),
    ensures
        utf8_len(s.take(m)) <= utf8_len(s),
    decreases s.len(),
{
    if m < s.len() {
        assert(s.drop_last().take(m) =~= s.take(m));
        lemma_utf8_len_prefix(s.drop_last(), m);
    } else {
        assert(s.take(m) =~= s);
    }
}

/// The file name for the user name `name`, between `prefix` and `suffix`, following
/// the UFO specification's convention: illegal characters become underscores,
/// upper-case letters are followed by an underscore, reserved parts get an underscore
/// before them, the name is cut to 255 bytes, and a name taken already (compared in
/// lower case) gets a fifteen-digit counter.
pub fn user_name_to_file_name(name: &str, prefix: &str, suffix: &str, existing: &Vec<String>) -> (res: String)
    requires
        utf8_len(suffix@) <= MAX_FILE_NAME_LEN - 15,
    ensures
        res@ == spec_file_name(name@, prefix@, suffix@, text_set(existing@)),
{
    let safe = sanitize_name(name, prefix);
    let escaped = escape_reserved_parts(safe.as_str());
    let stem = clip_text(escaped.as_str(), MAX_FILE_NAME_LEN - suffix_len(suffix));
    let plain = crate::text::concat(stem.as_str(), suffix);
    if !is_taken(existing, plain.as_str()) {
        return plain;
    }
    let mut counter: u64 = 1;
    while counter < MAX_CLASH_COUNTER
        invariant
            1 <= counter <= MAX_CLASH_COUNTER,
            utf8_len(suffix@) <= MAX_FILE_NAME_LEN - 15,
            spec_file_name(name@, prefix@, suffix@, text_set(existing@)) == first_free(stem@, suffix@, text_set(existing@), counter as nat),
        decreases MAX_CLASH_COUNTER - counter,
    {
        let candidate = numbered_name(stem.as_str(), suffix, counter);
        if !is_taken(existing, candidate.as_str()) {
            return candidate;
        }
        counter += 1;
    }
    numbered_name(stem.as_str(), suffix, MAX_CLASH_COUNTER - 1)
}

/// The default file name of a glyph's `.glif` file.
pub fn default_file_name_for_glyph_name(name: &str, existing: &Vec<String>) -> (res: String)
    ensures
        res@ == spec_file_name(name@, Seq::empty(), ".glif"@, text_set(existing@)),
{
    let suffix = ".glif";
    proof {
        reveal_strlit(".glif");
        reveal_strlit("");
        reveal_with_fuel(utf8_len, 6);
        assert(""@ =~= Seq::<char>::empty());
    }
    user_name_to_file_name(name, "", suffix, existing)
}

/// The default directory name of a layer.
pub fn default_file_name_for_layer_name(name: &str, existing: &Vec<String>) -> (res: String)
    ensures
        res@ == spec_file_name(name@, "glyphs."@, Seq::empty(), text_set(existing@)),
{
    proof {
        reveal_strlit("");
        assert(""@ =~= Seq::<char>::empty());
    }
    user_name_to_file_name(name, "glyphs.", "", existing)
}

} // verus!
