//! The display configuration file: lines of `KEY=value`, with blank lines
//! and `#` comments, read over the defaults of the 5.7" panel.

use vstd::prelude::*;
use vstd::string::{StrSliceExecFns, StringExecFns};

use crate::text::{parse_u32, same_text, unsigned_decimal_u32};

verus! {

/// What is known of the connected display.
#[derive(Debug)]
pub struct DisplayConfig {
    pub width: u32,
    pub height: u32,
    pub thumb_width: u32,
    pub thumb_height: u32,
    pub model: String,
    pub color: String,
}

/// The mathematical value of a [`DisplayConfig`].
pub struct DisplayConfigView {
    pub width: u32,
    pub height: u32,
    pub thumb_width: u32,
    pub thumb_height: u32,
    pub model: Seq<char>,
    pub color: Seq<char>,
}

impl View for DisplayConfig {
    type V = DisplayConfigView;

    open spec fn view(&self) -> DisplayConfigView {
        DisplayConfigView {
            width: self.width,
            height: self.height,
            thumb_width: self.thumb_width,
            thumb_height: self.thumb_height,
            model: self.model@,
            color: self.color@,
        }
    }
}

/// The configuration of the 5.7" panel, used where no file says otherwise.
pub open spec fn default_config() -> DisplayConfigView {
    DisplayConfigView {
        width: 600,
        height: 448,
        thumb_width: 150,
        thumb_height: 112,
        model: "impression-5.7-default"@,
        color: "multi"@,
    }
}

/// The characters that count as white space.
pub open spec fn is_whitespace(c: char) -> bool {
    c == '\u{9}' || c == '\u{A}' || c == '\u{B}' || c == '\u{C}' || c == '\u{D}' || c == ' '
        || c == '\u{85}' || c == '\u{A0}' || c == '\u{1680}' || c == '\u{2000}' || c == '\u{2001}'
        || c == '\u{2002}' || c == '\u{2003}' || c == '\u{2004}' || c == '\u{2005}' || c
        == '\u{2006}' || c == '\u{2007}' || c == '\u{2008}' || c == '\u{2009}' || c == '\u{200A}'
        || c == '\u{2028}' || c == '\u{2029}' || c == '\u{202F}' || c == '\u{205F}' || c
        == '\u{3000}'
}

/// How many white space characters a text begins with.
pub open spec fn leading_whitespace(text: Seq<char>) -> nat
    decreases text.len(),
{
    if text.len() > 0 && is_whitespace(text[0]) {
        1 + leading_whitespace(text.drop_first())
    } else {
        0
    }
}

/// How many white space characters a text ends with.
pub open spec fn trailing_whitespace(text: Seq<char>) -> nat
    decreases text.len(),
{
    if text.len() > 0 && is_whitespace(text.last()) {
        1 + trailing_whitespace(text.drop_last())
    } else {
        0
    }
}

/// A text without the white space at its ends.
pub open spec fn trimmed(text: Seq<char>) -> Seq<char> {
    let rest = text.skip(leading_whitespace(text) as int);
    rest.take(rest.len() - trailing_whitespace(rest))
}

/// The index of the first `c` in a text.
pub open spec fn position_of(text: Seq<char>, c: char) -> Option<nat>
    decreases text.len(),
{
    if text.len() == 0 {
        None
    } else if text[0] == c {
        Some(0)
    } else {
        match position_of(text.drop_first(), c) {
            Some(i) => Some(i + 1),
            None => None,
        }
    }
}

/// The configuration after the setting `key` is given the text `value`: a
/// dimension takes a value that is a number of 32 bits and keeps its old
/// one otherwise; model and colour take any text; an unknown key changes
/// nothing.
pub open spec fn apply_setting(
    config: DisplayConfigView,
    key: Seq<char>,
    value: Seq<char>,
) -> DisplayConfigView {
    if key == "DISPLAY_WIDTH"@ {
        match unsigned_decimal_u32(value) {
            Some(width) => DisplayConfigView { width, ..config },
            None => config,
        }
    } else if key == "DISPLAY_HEIGHT"@ {
        match unsigned_decimal_u32(value) {
            Some(height) => DisplayConfigView { height, ..config },
            None => config,
        }
    } else if key == "THUMB_WIDTH"@ {
        match unsigned_decimal_u32(value) {
            Some(thumb_width) => DisplayConfigView { thumb_width, ..config },
            None => config,
        }
    } else if key == "THUMB_HEIGHT"@ {
        match unsigned_decimal_u32(value) {
            Some(thumb_height) => DisplayConfigView { thumb_height, ..config },
            None => config,
        }
    } else if key == "DISPLAY_MODEL"@ {
        DisplayConfigView { model: value, ..config }
    } else if key == "DISPLAY_COLOR"@ {
        DisplayConfigView { color: value, ..config }
    } else {
        config
    }
}

/// The configuration after one line of the file: a blank line, a comment
/// and a line without `=` change nothing; any other line sets the key
/// before its first `=` to the value behind it, both trimmed.
pub open spec fn apply_line(config: DisplayConfigView, raw: Seq<char>) -> DisplayConfigView {
    let line = trimmed(raw);
    if line.len() == 0 || line[0] == '#' {
        config
    } else {
        match position_of(line, '=') {
            Some(at) => apply_setting(
                config,
                trimmed(line.take(at as int)),
                trimmed(line.skip(at as int + 1)),
            ),
            None => config,
        }
    }
}

/// The configuration after the lines of a text, from the first to the last.
pub open spec fn apply_lines(config: DisplayConfigView, text: Seq<char>) -> DisplayConfigView
    decreases text.len(),
{
    if text.len() == 0 {
        config
    } else {
        match position_of(text, '\n') {
            Some(at) => if at < text.len() {
                apply_lines(apply_line(config, text.take(at as int)), text.skip(at as int + 1))
            } else {
                config
            },
            None => apply_line(config, text),
        }
    }
}

/// `position_of` gives `at` when `c` stands there and nowhere before.
pub proof fn lemma_position_of_first(text: Seq<char>, c: char, at: int)
    requires
        0 <= at < text.len(),
        text[at] == c,
        forall|i: int| 0 <= i < at ==> text[i] != c,
    ensures
        position_of(text, c) == Some(at as nat),
    decreases text.len(),
{
    if at > 0 {
        let rest = text.drop_first();
        assert(text[0] != c);
        assert forall|i: int| 0 <= i < at - 1 implies rest[i] != c by {
            assert(rest[i] == text[i + 1]);
        }
        lemma_position_of_first(rest, c, at - 1);
    }
}

/// `position_of` gives nothing when `c` stands nowhere.
pub proof fn lemma_position_of_absent(text: Seq<char>, c: char)
    requires
        forall|i: int| 0 <= i < text.len() ==> text[i] != c,
    ensures
        position_of(text, c).is_none(),
    decreases text.len(),
{
    if text.len() > 0 {
        let rest = text.drop_first();
        assert(text[0] != c);
        assert forall|i: int| 0 <= i < rest.len() implies rest[i] != c by {
            assert(rest[i] == text[i + 1]);
        }
        lemma_position_of_absent(rest, c);
    }
}

/// A text begins with `count` white space characters when those are white
/// space and the next one, if there is one, is not.
pub proof fn lemma_leading_whitespace(text: Seq<char>, count: int)
    requires
        0 <= count <= text.len(),
        forall|i: int| 0 <= i < count ==> is_whitespace(text[i]),
        count == text.len() || !is_whitespace(text[count]),
    ensures
        leading_whitespace(text) == count,
    decreases text.len(),
{
    if count > 0 {
        let rest = text.drop_first();
        assert(is_whitespace(text[0]));
        assert forall|i: int| 0 <= i < count - 1 implies is_whitespace(rest[i]) by {
            assert(rest[i] == text[i + 1]);
        }
        if count < text.len() {
            assert(rest[count - 1] == text[count]);
        }
        lemma_leading_whitespace(rest, count - 1);
    }
}

/// A text ends with `count` white space characters when those are white
/// space and the one before them, if there is one, is not.
pub proof fn lemma_trailing_whitespace(text: Seq<char>, count: int)
    requires
        0 <= count <= text.len(),
        forall|i: int| text.len() - count <= i < text.len() ==> is_whitespace(text[i]),
        count == text.len() || !is_whitespace(text[text.len() - count - 1]),
    ensures
        trailing_whitespace(text) == count,
    decreases text.len(),
{
    if count > 0 {
        let rest = text.drop_last();
        assert(is_whitespace(text[text.len() - 1]));
        assert forall|i: int| rest.len() - (count - 1) <= i < rest.len() implies is_whitespace(
            rest[i],
        ) by {
            assert(rest[i] == text[i]);
        }
        if count < text.len() {
            assert(rest[rest.len() - (count - 1) - 1] == text[text.len() - count - 1]);
        }
        lemma_trailing_whitespace(rest, count - 1);
    }
}

/// Whether a character counts as white space.
pub fn is_whitespace_char(c: char) -> (space: bool)
    ensures
        space == is_whitespace(c),
{
    c == '\u{9}' || c == '\u{A}' || c == '\u{B}' || c == '\u{C}' || c == '\u{D}' || c == ' '
        || c == '\u{85}' || c == '\u{A0}' || c == '\u{1680}' || c == '\u{2000}' || c == '\u{2001}'
        || c == '\u{2002}' || c == '\u{2003}' || c == '\u{2004}' || c == '\u{2005}' || c
        == '\u{2006}' || c == '\u{2007}' || c == '\u{2008}' || c == '\u{2009}' || c == '\u{200A}'
        || c == '\u{2028}' || c == '\u{2029}' || c == '\u{202F}' || c == '\u{205F}' || c
        == '\u{3000}'
}

/// A text without the white space at its ends.
pub fn trim<'a>(text: &'a str) -> (out: &'a str)
    ensures
        out@ == trimmed(text@),
{
    let len = text.unicode_len();
    let mut start: usize = 0;
    while start < len && is_whitespace_char(text.get_char(start))
        invariant
            len == text@.len(),
            start <= len,
            forall|i: int| 0 <= i < start ==> is_whitespace(text@[i]),
        decreases len - start,
    {
        start += 1;
    }
    let mut end: usize = len;
    while end > start && is_whitespace_char(text.get_char(end - 1))
        invariant
            len == text@.len(),
            start <= end <= len,
            forall|i: int| end <= i < len ==> is_whitespace(text@[i]),
        decreases end,
    {
        end -= 1;
    }
    proof {
        lemma_leading_whitespace(text@, start as int);
        let rest = text@.skip(start as int);
        assert forall|i: int| rest.len() - (len - end) <= i < rest.len() implies is_whitespace(
            rest[i],
        ) by {
            assert(rest[i] == text@[i + start]);
        }
        if end > start {
            assert(rest[rest.len() - (len - end) - 1] == text@[end - 1]);
        }
        lemma_trailing_whitespace(rest, len - end);
        assert(text@.subrange(start as int, end as int) =~= rest.take(rest.len() - (len - end)));
    }
    text.substring_char(start, end)
}

/// The index of the first `c` in a text.
pub fn find_char(text: &str, c: char) -> (found: Option<usize>)
    ensures
        match found {
            Some(at) => at < text@.len() && position_of(text@, c) == Some(at as nat),
            None => position_of(text@, c).is_none(),
        },
{
    let len = text.unicode_len();
    let mut at: usize = 0;
    while at < len
        invariant
            len == text@.len(),
            at <= len,
            forall|i: int| 0 <= i < at ==> text@[i] != c,
        decreases len - at,
    {
        if text.get_char(at) == c {
            proof {
                lemma_position_of_first(text@, c, at as int);
            }
            return Some(at);
        }
        at += 1;
    }
    proof {
        lemma_position_of_absent(text@, c);
    }
    None
}

/// The configuration of the 5.7" panel.
pub fn default_display_config() -> (config: DisplayConfig)
    ensures
        config@ == default_config(),
{
    DisplayConfig {
        width: 600,
        height: 448,
        thumb_width: 150,
        thumb_height: 112,
        model: String::from_str("impression-5.7-default"),
        color: String::from_str("multi"),
    }
}

/// Gives the setting `key` the text `value`.
pub fn apply_config_setting(config: DisplayConfig, key: &str, value: &str) -> (updated:
    DisplayConfig)
    ensures
        updated@ == apply_setting(config@, key@, value@),
{
    let mut updated = config;
    if same_text(key, "DISPLAY_WIDTH") {
        match parse_u32(value) {
            Some(width) => {
                updated.width = width;
            },
            None => {},
        }
    } else if same_text(key, "DISPLAY_HEIGHT") {
        match parse_u32(value) {
            Some(height) => {
                updated.height = height;
            },
            None => {},
        }
    } else if same_text(key, "THUMB_WIDTH") {
        match parse_u32(value) {
            Some(thumb_width) => {
                updated.thumb_width = thumb_width;
            },
            None => {},
        }
    } else if same_text(key, "THUMB_HEIGHT") {
        match parse_u32(value) {
            Some(thumb_height) => {
                updated.thumb_height = thumb_height;
            },
            None => {},
        }
    } else if same_text(key, "DISPLAY_MODEL") {
        updated.model = String::from_str(value);
    } else if same_text(key, "DISPLAY_COLOR") {
        updated.color = String::from_str(value);
    }
    updated
}

/// Reads one line of the file into the configuration.
pub fn apply_config_line(config: DisplayConfig, raw: &str) -> (updated: DisplayConfig)
    ensures
        updated@ == apply_line(config@, raw@),
{
    let line = trim(raw);
    let len = line.unicode_len();
    if len == 0 || line.get_char(0) == '#' {
        return config;
    }
    match find_char(line, '=') {
        Some(at) => {
            let key = trim(line.substring_char(0, at));
            let value = trim(line.substring_char(at + 1, len));
            assert(line@.subrange(0, at as int) =~= line@.take(at as int));
            assert(line@.subrange(at + 1, len as int) =~= line@.skip(at + 1));
            apply_config_setting(config, key, value)
        },
        None => config,
    }
}

/// Reads the text of a configuration file over the given configuration.
pub fn parse_display_config(defaults: DisplayConfig, contents: &str) -> (config: DisplayConfig)
    ensures
        config@ == apply_lines(defaults@, contents@),
{
    let mut config = defaults;
    let mut rest: &str = contents;
    loop
        invariant
            apply_lines(defaults@, contents@) == apply_lines(config@, rest@),
        ensures
            config@ == apply_lines(defaults@, contents@),
        decreases rest@.len(),
    {
        let len = rest.unicode_len();
        if len == 0 {
            break;
        }
        match find_char(rest, '\n') {
            Some(at) => {
                let line = rest.substring_char(0, at);
                let after = rest.substring_char(at + 1, len);
                assert(line@ =~= rest@.take(at as int));
                assert(after@ =~= rest@.skip(at + 1));
                config = apply_config_line(config, line);
                rest = after;
            },
            None => {
                config = apply_config_line(config, rest);
                break;
            },
        }
    }
    config
}

/// Read display configuration from the text of the configuration file, or
/// from nothing where the file could not be read: the defaults of the 5.7"
/// panel, with what the file sets in their place.
pub fn get_display_config(contents: Option<&str>) -> (config: DisplayConfig)
    ensures
        config@ == (match contents {
            Some(text) => apply_lines(default_config(), text@),
            None => default_config(),
        }),
{
    match contents {
        Some(text) => parse_display_config(default_display_config(), text),
        None => default_display_config(),
    }
}

} // verus!
