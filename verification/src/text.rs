use vstd::prelude::*;

verus! {

/// The lower-case hexadecimal digit for a value below sixteen.
pub open spec fn hex_digit(n: int) -> char {
    if n < 10 {
        ('0' as int + n) as char
    } else {
        ('a' as int + n - 10) as char
    }
}

/// The two lower-case hexadecimal digits of one byte, high half first.
pub open spec fn hex_byte(b: u8) -> Seq<char> {
    seq![hex_digit(b as int / 16), hex_digit(b as int % 16)]
}

/// The one-character text of a lower-case hexadecimal digit.
fn hex_digit_text(n: u8) -> (text: &'static str)
    requires
        n < 16,
    ensures
        text@ == seq![hex_digit(n as int)],
{
    proof {
        reveal_strlit("0");
        reveal_strlit("1");
        reveal_strlit("2");
        reveal_strlit("3");
        reveal_strlit("4");
        reveal_strlit("5");
        reveal_strlit("6");
        reveal_strlit("7");
        reveal_strlit("8");
        reveal_strlit("9");
        reveal_strlit("a");
        reveal_strlit("b");
        reveal_strlit("c");
        reveal_strlit("d");
        reveal_strlit("e");
        reveal_strlit("f");
    }
    match n {
        0 => "0",
        1 => "1",
        2 => "2",
        3 => "3",
        4 => "4",
        5 => "5",
        6 => "6",
        7 => "7",
        8 => "8",
        9 => "9",
        10 => "a",
        11 => "b",
        12 => "c",
        13 => "d",
        14 => "e",
        _ => "f",
    }
}

/// Appends the two lower-case hexadecimal digits of a byte.
pub fn push_hex_byte(out: &mut String, b: u8)
    ensures
        final(out)@ == old(out)@ + hex_byte(b),
{
    out.append(hex_digit_text(b / 16));
    out.append(hex_digit_text(b % 16));
    assert(out@ =~= old(out)@ + hex_byte(b));
}

/// The characters that have the Unicode property `White_Space`.
pub open spec fn is_white(c: char) -> bool {
    let n = c as int;
    ||| 0x09 <= n <= 0x0d
    ||| n == 0x20
    ||| n == 0x85
    ||| n == 0xa0
    ||| n == 0x1680
    ||| 0x2000 <= n <= 0x200a
    ||| n == 0x2028
    ||| n == 0x2029
    ||| n == 0x202f
    ||| n == 0x205f
    ||| n == 0x3000
}

/// Whether a character is white space.
pub fn is_whitespace(c: char) -> (white: bool)
    ensures
        white == is_white(c),
{
    let n: u32 = c as u32;
    (0x09 <= n && n <= 0x0d) || n == 0x20 || n == 0x85 || n == 0xa0 || n == 0x1680 || (0x2000 <= n
        && n <= 0x200a) || n == 0x2028 || n == 0x2029 || n == 0x202f || n == 0x205f || n == 0x3000
}

/// A text without the white space in front of it.
pub open spec fn trim_front(s: Seq<char>) -> Seq<char>
    decreases s.len(),
{
    if s.len() > 0 && is_white(s.first()) {
        trim_front(s.drop_first())
    } else {
        s
    }
}

/// A text without the white space behind it.
pub open spec fn trim_back(s: Seq<char>) -> Seq<char>
    decreases s.len(),
{
    if s.len() > 0 && is_white(s.last()) {
        trim_back(s.drop_last())
    } else {
        s
    }
}

/// A text without the white space around it.
pub open spec fn trimmed(s: Seq<char>) -> Seq<char> {
    trim_back(trim_front(s))
}

/// The part of a text without the white space around it.
pub fn trim(s: &str) -> (part: &str)
    ensures
        part@ == trimmed(s@),
{
    let n: usize = s.unicode_len();
    let mut i: usize = 0;
    assert(s@.subrange(0, n as int) =~= s@);
    while i < n && is_whitespace(s.get_char(i))
        invariant
            i <= n,
            n == s@.len(),
            trim_front(s@) == trim_front(s@.subrange(i as int, n as int)),
        decreases n - i,
    {
        assert(s@.subrange(i as int, n as int).drop_first() =~= s@.subrange(i + 1, n as int));
        i = i + 1;
    }
    assert(trim_front(s@) == s@.subrange(i as int, n as int));
    let mut j: usize = n;
    while i < j && is_whitespace(s.get_char(j - 1))
        invariant
            i <= j <= n,
            n == s@.len(),
            trimmed(s@) == trim_back(s@.subrange(i as int, j as int)),
        decreases j - i,
    {
        assert(s@.subrange(i as int, j as int).drop_last() =~= s@.subrange(i as int, j - 1));
        j = j - 1;
    }
    s.substring_char(i, j)
}

/// The parts of a text between the occurrences of a separator: one more than it occurs.
pub open spec fn split_parts(s: Seq<char>, separator: char) -> Seq<Seq<char>>
    decreases s.len(),
{
    if s.len() == 0 {
        seq![Seq::<char>::empty()]
    } else {
        let parts = split_parts(s.drop_last(), separator);
        if s.last() == separator {
            parts.push(Seq::<char>::empty())
        } else {
            parts.drop_last().push(parts.last().push(s.last()))
        }
    }
}

/// The views of a list of texts.
pub open spec fn views(list: Seq<String>) -> Seq<Seq<char>> {
    list.map_values(|s: String| s@)
}

/// Texts, each without the white space around it.
pub open spec fn all_trimmed(parts: Seq<Seq<char>>) -> Seq<Seq<char>> {
    parts.map_values(|part: Seq<char>| trimmed(part))
}

/// The parts between the commas of a list, each without the white space around it.
pub open spec fn comma_list(s: Seq<char>) -> Seq<Seq<char>> {
    all_trimmed(split_parts(s, ','))
}

/// Reads a list whose items stand between commas.
pub fn parse_comma_list(s: &str) -> (items: Vec<String>)
    ensures
        views(items@) == comma_list(s@),
{
    let mut items: Vec<String> = Vec::new();
    let n: usize = s.unicode_len();
    let mut start: usize = 0;
    let mut i: usize = 0;
    assert(s@.take(0) =~= Seq::<char>::empty());
    assert(s@.subrange(0, 0) =~= Seq::<char>::empty());
    assert(split_parts(s@.take(0), ',').drop_last() =~= Seq::<Seq<char>>::empty());
    while i < n
        invariant
            start <= i <= n,
            n == s@.len(),
            split_parts(s@.take(i as int), ',').len() > 0,
            split_parts(s@.take(i as int), ',').last() == s@.subrange(start as int, i as int),
            views(items@) == all_trimmed(split_parts(s@.take(i as int), ',').drop_last()),
        decreases n - i,
    {
        let ghost before = split_parts(s@.take(i as int), ',');
        let ghost after = split_parts(s@.take(i + 1), ',');
        proof {
            assert(s@.take(i + 1).drop_last() =~= s@.take(i as int));
            assert(s@.take(i + 1).last() == s@[i as int]);
        }
        if s.get_char(i) == ',' {
            let item = trim(s.substring_char(start, i)).to_owned();
            let ghost old_items = items@;
            items.push(item);
            start = i + 1;
            proof {
                assert(after.drop_last() =~= before);
                assert(before =~= before.drop_last().push(before.last()));
                assert(views(items@) =~= views(old_items).push(item@));
                assert(all_trimmed(before) =~= all_trimmed(before.drop_last()).push(
                    trimmed(before.last()),
                ));
                assert(s@.subrange(start as int, i + 1) =~= Seq::<char>::empty());
            }
        } else {
            proof {
                assert(after.drop_last() =~= before.drop_last());
                assert(s@.subrange(start as int, i + 1) =~= s@.subrange(
                    start as int,
                    i as int,
                ).push(s@[i as int]));
            }
        }
        i = i + 1;
    }
    let item = trim(s.substring_char(start, n)).to_owned();
    let ghost old_items = items@;
    items.push(item);
    proof {
        let parts = split_parts(s@, ',');
        assert(s@.take(n as int) =~= s@);
        assert(parts =~= parts.drop_last().push(parts.last()));
        assert(views(items@) =~= views(old_items).push(item@));
        assert(comma_list(s@) =~= all_trimmed(parts.drop_last()).push(trimmed(parts.last())));
    }
    items
}

/// Texts put together with a separator between each two.
pub open spec fn joined(parts: Seq<Seq<char>>, separator: char) -> Seq<char>
    decreases parts.len(),
{
    if parts.len() == 0 {
        Seq::<char>::empty()
    } else if parts.len() == 1 {
        parts[0]
    } else {
        joined(parts.drop_last(), separator).push(separator) + parts.last()
    }
}

/// Splitting loses nothing and leaves no separator: the parts, put together again, are the text,
/// and none of them holds the separator.
pub proof fn split_undoes_join(s: Seq<char>, separator: char)
    ensures
        split_parts(s, separator).len() > 0,
        joined(split_parts(s, separator), separator) == s,
        forall|i: int|
            0 <= i < split_parts(s, separator).len() ==> !(#[trigger] split_parts(
                s,
                separator,
            )[i]).contains(separator),
    decreases s.len(),
{
    let parts = split_parts(s, separator);
    if s.len() > 0 {
        let before = split_parts(s.drop_last(), separator);
        split_undoes_join(s.drop_last(), separator);
        assert(s =~= s.drop_last().push(s.last()));
        if s.last() == separator {
            assert(parts.drop_last() =~= before);
            assert(joined(parts, separator) =~= s);
        } else {
            assert(parts.drop_last() =~= before.drop_last());
            assert(joined(parts, separator) =~= s);
            assert forall|i: int| 0 <= i < parts.len() implies !(#[trigger] parts[i]).contains(
                separator,
            ) by {
                if i == parts.len() - 1 {
                    assert(!before[i].contains(separator));
                    if parts[i].contains(separator) {
                        let k = choose|k: int|
                            0 <= k < parts[i].len() && parts[i][k] == separator;
                        assert(k < before[i].len());
                        assert(before[i][k] == separator);
                    }
                } else {
                    assert(parts[i] == before[i]);
                }
            }
        }
    }
}

/// Trimming takes away white space only, and all of it: what is left is a stretch of the text
/// that neither begins nor ends with white space.
pub proof fn trim_takes_white_space_only(s: Seq<char>)
    ensures
        exists|front: Seq<char>, back: Seq<char>|
            #![trigger front + trimmed(s) + back]
            s == front + trimmed(s) + back && (forall|i: int|
                0 <= i < front.len() ==> is_white(#[trigger] front[i])) && (forall|i: int|
                0 <= i < back.len() ==> is_white(#[trigger] back[i])),
        trimmed(s).len() > 0 ==> !is_white(trimmed(s).first()) && !is_white(trimmed(s).last()),
{
    let front = front_of(s);
    let back = back_of(trim_front(s));
    assert(s =~= front + trimmed(s) + back);
}

/// The white space in front of a text.
proof fn front_of(s: Seq<char>) -> (front: Seq<char>)
    ensures
        s == front + trim_front(s),
        forall|i: int| 0 <= i < front.len() ==> is_white(#[trigger] front[i]),
        trim_front(s).len() > 0 ==> !is_white(trim_front(s).first()),
    decreases s.len(),
{
    if s.len() > 0 && is_white(s.first()) {
        let rest = front_of(s.drop_first());
        let front = seq![s.first()] + rest;
        assert(s =~= seq![s.first()] + s.drop_first());
        assert(s =~= front + trim_front(s.drop_first()));
        front
    } else {
        assert(s =~= Seq::<char>::empty() + s);
        Seq::<char>::empty()
    }
}

/// The white space behind a text.
proof fn back_of(s: Seq<char>) -> (back: Seq<char>)
    ensures
        s == trim_back(s) + back,
        forall|i: int| 0 <= i < back.len() ==> is_white(#[trigger] back[i]),
        trim_back(s).len() > 0 ==> !is_white(trim_back(s).last()) && trim_back(s).first()
            == s.first(),
    decreases s.len(),
{
    if s.len() > 0 && is_white(s.last()) {
        let rest = back_of(s.drop_last());
        let back = rest.push(s.last());
        assert(s =~= s.drop_last().push(s.last()));
        assert(s =~= trim_back(s.drop_last()) + back);
        back
    } else {
        assert(s =~= s + Seq::<char>::empty());
        Seq::<char>::empty()
    }
}

/// A text without the occurrences of a character in front of it.
pub open spec fn strip_front(s: Seq<char>, c: char) -> Seq<char>
    decreases s.len(),
{
    if s.len() > 0 && s.first() == c {
        strip_front(s.drop_first(), c)
    } else {
        s
    }
}

/// The part of a text behind the occurrences of a character in front of it.
pub fn skip_leading(s: &str, c: char) -> (part: &str)
    ensures
        part@ == strip_front(s@, c),
{
    let n: usize = s.unicode_len();
    let mut i: usize = 0;
    assert(s@.subrange(0, n as int) =~= s@);
    while i < n && s.get_char(i) == c
        invariant
            i <= n,
            n == s@.len(),
            strip_front(s@, c) == strip_front(s@.subrange(i as int, n as int), c),
        decreases n - i,
    {
        assert(s@.subrange(i as int, n as int).drop_first() =~= s@.subrange(i + 1, n as int));
        i = i + 1;
    }
    s.substring_char(i, n)
}

/// Stripping takes every occurrence in front: what is left does not start with the character and
/// is not changed by stripping it again, and one occurrence more makes no difference.
pub proof fn strip_front_leaves_the_rest(s: Seq<char>, c: char)
    ensures
        strip_front(s, c).len() > 0 ==> strip_front(s, c).first() != c,
        strip_front(strip_front(s, c), c) == strip_front(s, c),
        strip_front(seq![c] + s, c) == strip_front(s, c),
    decreases s.len(),
{
    assert((seq![c] + s).drop_first() =~= s);
    if s.len() > 0 && s.first() == c {
        strip_front_leaves_the_rest(s.drop_first(), c);
    }
}

/// The hexadecimal digits, from zero to fifteen.
pub proof fn hex_digits(n: int)
    requires
        0 <= n < 16,
    ensures
        hex_digit(n) == "0123456789abcdef"@[n],
{
    reveal_strlit("0123456789abcdef");
}

/// Appending a byte in hexadecimal keeps the text in front and adds two characters: the digit of
/// the byte's high half, then the digit of its low half.
pub proof fn appended_hex_byte(out: &mut String, b: u8)
    requires
        call_ensures(push_hex_byte, (out, b), ()),
    ensures
        final(out)@.len() == old(out)@.len() + 2,
        forall|i: int| 0 <= i < old(out)@.len() ==> final(out)@[i] == #[trigger] old(out)@[i],
        final(out)@[old(out)@.len() as int] == "0123456789abcdef"@[b as int / 16],
        final(out)@[old(out)@.len() as int + 1] == "0123456789abcdef"@[b as int % 16],
{
    hex_digits(b as int / 16);
    hex_digits(b as int % 16);
}

/// The twenty-five characters that are white space, and no others.
pub proof fn white_characters(c: char, white: bool)
    requires
        call_ensures(is_whitespace, (c,), white),
    ensures
        white == is_white(c),
        white <==> (c == '\u{9}' || c == '\u{a}' || c == '\u{b}' || c == '\u{c}' || c == '\u{d}'
            || c == ' ' || c == '\u{85}' || c == '\u{a0}' || c == '\u{1680}' || c == '\u{2000}' || c
            == '\u{2001}' || c == '\u{2002}' || c == '\u{2003}' || c == '\u{2004}' || c
            == '\u{2005}' || c == '\u{2006}' || c == '\u{2007}' || c == '\u{2008}' || c
            == '\u{2009}' || c == '\u{200a}' || c == '\u{2028}' || c == '\u{2029}' || c
            == '\u{202f}' || c == '\u{205f}' || c == '\u{3000}'),
{
}

/// Every character of a text is white space.
pub open spec fn all_white(s: Seq<char>) -> bool {
    forall|i: int| 0 <= i < s.len() ==> is_white(#[trigger] s[i])
}

/// A text neither begins nor ends with white space.
pub open spec fn is_bare(s: Seq<char>) -> bool {
    s.len() > 0 ==> !is_white(s[0]) && !is_white(s[s.len() - 1])
}

proof fn trim_front_of(front: Seq<char>, rest: Seq<char>)
    requires
        all_white(front),
        rest.len() > 0 ==> !is_white(rest[0]),
    ensures
        trim_front(front + rest) == rest,
    decreases front.len(),
{
    if front.len() > 0 {
        assert((front + rest).drop_first() =~= front.drop_first() + rest);
        assert(is_white(front[0]));
        assert forall|i: int| 0 <= i < front.drop_first().len() implies is_white(
            #[trigger] front.drop_first()[i],
        ) by {
            assert(is_white(front[i + 1]));
        }
        trim_front_of(front.drop_first(), rest);
    } else {
        assert(front + rest =~= rest);
    }
}

proof fn trim_back_of(rest: Seq<char>, back: Seq<char>)
    requires
        all_white(back),
        rest.len() > 0 ==> !is_white(rest[rest.len() - 1]),
    ensures
        trim_back(rest + back) == rest,
    decreases back.len(),
{
    if back.len() > 0 {
        assert((rest + back).drop_last() =~= rest + back.drop_last());
        assert(is_white(back[back.len() - 1]));
        assert forall|i: int| 0 <= i < back.drop_last().len() implies is_white(
            #[trigger] back.drop_last()[i],
        ) by {
            assert(is_white(back[i]));
        }
        trim_back_of(rest, back.drop_last());
    } else {
        assert(rest + back =~= rest);
    }
}

/// A bare text is what is left when white space, as much as one likes, was put around it.
pub proof fn trimming_undoes_padding(front: Seq<char>, core: Seq<char>, back: Seq<char>)
    requires
        all_white(front),
        is_bare(core),
        all_white(back),
    ensures
        trimmed(front + core + back) == core,
{
    if core.len() > 0 {
        assert(front + core + back =~= front + (core + back));
        trim_front_of(front, core + back);
        trim_back_of(core, back);
    } else {
        assert forall|i: int| 0 <= i < (front + back).len() implies is_white(
            #[trigger] (front + back)[i],
        ) by {
            if i >= front.len() {
                assert(is_white(back[i - front.len()]));
            }
        }
        assert(front + core + back =~= (front + back) + Seq::<char>::empty());
        trim_front_of(front + back, Seq::empty());
        assert(core =~= Seq::<char>::empty());
    }
}

/// What `trim` gives back is the bare text inside the white space.
pub proof fn trimmed_text(
    s: &str,
    part: &str,
    front: Seq<char>,
    core: Seq<char>,
    back: Seq<char>,
)
    requires
        call_ensures(trim, (s,), part),
        s@ == front + core + back,
        all_white(front),
        is_bare(core),
        all_white(back),
    ensures
        part@ == core,
{
    trimming_undoes_padding(front, core, back);
}

/// A text without separators is the one part of itself.
proof fn one_part(s: Seq<char>, separator: char)
    requires
        !s.contains(separator),
    ensures
        split_parts(s, separator) == seq![s],
    decreases s.len(),
{
    if s.len() > 0 {
        assert(s[s.len() - 1] != separator);
        assert forall|i: int| 0 <= i < s.drop_last().len() implies s.drop_last()[i]
            != separator by {
            assert(s[i] != separator);
        }
        one_part(s.drop_last(), separator);
        assert(s.drop_last().push(s.last()) =~= s);
        assert(split_parts(s, separator) =~= seq![s]);
    } else {
        assert(s =~= Seq::<char>::empty());
        assert(split_parts(s, separator) =~= seq![s]);
    }
}

/// Where texts are put together with a separator between them, the parts of the first are followed
/// by the parts of the second; a text without separators is the one part of itself.
pub proof fn parts_follow_the_separators(a: Seq<char>, b: Seq<char>, separator: char)
    ensures
        split_parts(a + seq![separator] + b, separator) == split_parts(a, separator) + split_parts(
            b,
            separator,
        ),
        !a.contains(separator) ==> split_parts(a, separator) == seq![a],
    decreases b.len(),
{
    if !a.contains(separator) {
        one_part(a, separator);
    }
    let whole = a + seq![separator] + b;
    let first = split_parts(a, separator);
    if b.len() == 0 {
        assert(whole.drop_last() =~= a);
        assert(split_parts(whole, separator) =~= first + split_parts(b, separator));
    } else {
        assert(whole.drop_last() =~= a + seq![separator] + b.drop_last());
        assert(whole.last() == b.last());
        parts_follow_the_separators(a, b.drop_last(), separator);
        split_undoes_join(b.drop_last(), separator);
        let second = split_parts(b.drop_last(), separator);
        assert((first + second).drop_last() =~= first + second.drop_last());
        assert((first + second).last() == second.last());
        assert(split_parts(whole, separator) =~= first + split_parts(b, separator));
    }
}

/// The items of a list are its parts, trimmed and nothing else: as many as there are parts, each
/// at its place. A bare text without commas is the one item of its own list, whatever white space
/// stands around it.
pub proof fn items_are_the_trimmed_parts(
    s: Seq<char>,
    front: Seq<char>,
    core: Seq<char>,
    back: Seq<char>,
)
    ensures
        comma_list(s).len() == split_parts(s, ',').len(),
        forall|i: int|
            0 <= i < split_parts(s, ',').len() ==> #[trigger] comma_list(s)[i] == trimmed(
                split_parts(s, ',')[i],
            ),
        s == front + core + back && !s.contains(',') && all_white(front) && is_bare(core)
            && all_white(back) ==> comma_list(s) == seq![core],
{
    if s == front + core + back && !s.contains(',') && all_white(front) && is_bare(core)
        && all_white(back) {
        one_part(s, ',');
        trimming_undoes_padding(front, core, back);
        assert(comma_list(s) =~= seq![core]);
    }
}

/// The items of two lists with a comma between them are the items of the first and then those of
/// the second.
pub proof fn lists_are_chained_by_commas(a: Seq<char>, b: Seq<char>)
    ensures
        comma_list(a + seq![','] + b) == comma_list(a) + comma_list(b),
{
    parts_follow_the_separators(a, b, ',');
    assert(comma_list(a + seq![','] + b) =~= comma_list(a) + comma_list(b));
}

/// Reading a list gives its items as they are, in their order: of a text without commas its bare
/// inside, and of two texts with a comma between them the items of the one and then the items of
/// the other.
pub proof fn list_items(
    s: &str,
    items: Vec<String>,
    a: &str,
    first: Vec<String>,
    b: &str,
    second: Vec<String>,
    front: Seq<char>,
    core: Seq<char>,
    back: Seq<char>,
)
    requires
        call_ensures(parse_comma_list, (s,), items),
        call_ensures(parse_comma_list, (a,), first),
        call_ensures(parse_comma_list, (b,), second),
    ensures
        s@ == front + core + back && !s@.contains(',') && all_white(front) && is_bare(core)
            && all_white(back) ==> items@.len() == 1 && items@[0]@ == core,
        s@ == a@ + seq![','] + b@ ==> {
            &&& items@.len() == first@.len() + second@.len()
            &&& forall|i: int| 0 <= i < first@.len() ==> (#[trigger] items@[i])@ == first@[i]@
            &&& forall|i: int|
                0 <= i < second@.len() ==> (#[trigger] second@[i])@ == items@[first@.len() + i]@
        },
{
    items_are_the_trimmed_parts(s@, front, core, back);
    lists_are_chained_by_commas(a@, b@);
    assert forall|i: int| 0 <= i < items@.len() implies views(items@)[i] == (
    #[trigger] items@[i])@ by {}
    if s@ == a@ + seq![','] + b@ {
        assert(views(items@).len() == items@.len());
        assert(views(first@).len() == first@.len());
        assert(views(second@).len() == second@.len());
        assert forall|i: int| 0 <= i < first@.len() implies (#[trigger] items@[i])@
            == first@[i]@ by {
            assert(views(items@)[i] == views(first@)[i]);
        }
        assert forall|i: int| 0 <= i < second@.len() implies (#[trigger] second@[i])@
            == items@[first@.len() + i]@ by {
            assert(views(items@)[first@.len() + i] == views(second@)[i]);
        }
    }
    if comma_list(s@) == seq![core] {
        assert(views(items@).len() == 1);
        assert(views(items@)[0] == core);
    }
}

/// The views of a list are those of its texts, each at its place.
pub proof fn views_are_in_place(list: Seq<String>)
    ensures
        views(list).len() == list.len(),
        forall|i: int| 0 <= i < list.len() ==> #[trigger] views(list)[i] == list[i]@,
{
}

/// Stripping drops occurrences of the character from the front and keeps all that follows, in its
/// order.
pub proof fn stripping_keeps_the_rest(s: Seq<char>, c: char)
    ensures
        strip_front(s, c).len() <= s.len(),
        forall|i: int|
            0 <= i < s.len() - strip_front(s, c).len() ==> (#[trigger] s[i]) == c,
        forall|i: int|
            0 <= i < strip_front(s, c).len() ==> #[trigger] strip_front(s, c)[i] == s[s.len()
                - strip_front(s, c).len() + i],
        strip_front(s, c).len() > 0 ==> strip_front(s, c)[0] != c,
    decreases s.len(),
{
    if s.len() > 0 && s.first() == c {
        let rest = s.drop_first();
        stripping_keeps_the_rest(rest, c);
        assert forall|i: int| 0 <= i < s.len() - strip_front(s, c).len() implies (#[trigger] s[i])
            == c by {
            if i > 0 {
                assert(rest[i - 1] == c);
            }
        }
    }
}

/// What `skip_leading` gives back starts behind the occurrences in front and goes to the end.
pub proof fn skipped_text(s: &str, c: char, part: &str)
    requires
        call_ensures(skip_leading, (s, c), part),
    ensures
        part@.len() <= s@.len(),
        part@ == s@.subrange(s@.len() - part@.len(), s@.len() as int),
        forall|i: int| 0 <= i < s@.len() - part@.len() ==> (#[trigger] s@[i]) == c,
        part@.len() > 0 ==> part@[0] != c,
{
    stripping_keeps_the_rest(s@, c);
    assert(part@ =~= s@.subrange(s@.len() - part@.len(), s@.len() as int));
}

/// What `trim` gives back is one stretch of the text: all that it leaves out, on either side, is
/// white space, and neither end of the stretch is.
pub proof fn trim_gives_a_stretch(s: &str, part: &str)
    requires
        call_ensures(trim, (s,), part),
    ensures
        exists|k: int|
            0 <= k && k + part@.len() <= s@.len() && #[trigger] s@.subrange(k, k + part@.len())
                == part@ && forall|i: int|
                0 <= i < s@.len() && !(k <= i < k + part@.len()) ==> is_white(#[trigger] s@[i]),
        part@.len() > 0 ==> !is_white(part@[0]) && !is_white(part@[part@.len() - 1]),
{
    trim_takes_white_space_only(s@);
    let (front, back) = choose|front: Seq<char>, back: Seq<char>|
        #![trigger front + trimmed(s@) + back]
        s@ == front + trimmed(s@) + back && (forall|i: int|
            0 <= i < front.len() ==> is_white(#[trigger] front[i])) && (forall|i: int|
            0 <= i < back.len() ==> is_white(#[trigger] back[i]));
    let k = front.len() as int;
    assert(s@.subrange(k, k + part@.len()) =~= part@);
    assert forall|i: int| 0 <= i < s@.len() && !(k <= i < k + part@.len()) implies is_white(
        #[trigger] s@[i],
    ) by {
        if i < k {
            assert(is_white(front[i]));
        } else {
            assert(is_white(back[i - k - part@.len()]));
        }
    }
}

/// Reading a list gives as many items as there are parts between its commas, and each is what
/// `trim` gives for its part.
pub proof fn list_items_are_trimmed_parts(
    s: &str,
    items: Vec<String>,
    i: int,
    piece: &str,
    part: &str,
)
    requires
        call_ensures(parse_comma_list, (s,), items),
        0 <= i < items@.len(),
        piece@ == split_parts(s@, ',')[i],
        call_ensures(trim, (piece,), part),
    ensures
        items@.len() == split_parts(s@, ',').len(),
        items@[i]@ == part@,
{
    views_are_in_place(items@);
    assert(views(items@)[i] == comma_list(s@)[i]);
}

} // verus!
