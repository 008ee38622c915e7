//! Helpers shared by the bot's commands: number formatting, the texts
//! the replies are made of, and the beatmap link reader.
pub mod database;
pub mod osu_pp;
pub mod osu_utils;
pub mod patterns;
pub mod pp_order;
pub mod url_parts;

use vstd::prelude::*;
use vstd::string::*;

use crate::strings::{str_eq, to_uppercase_string, unicode_uppercase};
use crate::text::{dec, signed_comma_dec, i64_to_comma_decimal, u64_to_comma_decimal};
pub use crate::utils::osu_utils::{
    format_hits, formated_song_length, get_flag_url, relative_timestamp, song_length_text,
    BPM_EMOJI,
};

verus! {

/// Writing a number with `,` between each group of three digits.
pub trait CommaFormat {
    /// The number to write.
    spec fn comma_value(&self) -> int;

    /// The number in decimal, with `,` between each group of three digits
    /// (and a leading `-` when negative).
    fn format(&self) -> (r: String)
        ensures
            r@ == signed_comma_dec(self.comma_value()),
    ;
}

impl CommaFormat for u16 {
    open spec fn comma_value(&self) -> int {
        *self as int
    }

    fn format(&self) -> (r: String) {
        u64_to_comma_decimal(*self as u64)
    }
}

impl CommaFormat for u32 {
    open spec fn comma_value(&self) -> int {
        *self as int
    }

    fn format(&self) -> (r: String) {
        u64_to_comma_decimal(*self as u64)
    }
}

impl CommaFormat for u64 {
    open spec fn comma_value(&self) -> int {
        *self as int
    }

    fn format(&self) -> (r: String) {
        u64_to_comma_decimal(*self)
    }
}

impl CommaFormat for usize {
    open spec fn comma_value(&self) -> int {
        *self as int
    }

    fn format(&self) -> (r: String) {
        u64_to_comma_decimal(*self as u64)
    }
}

impl CommaFormat for i32 {
    open spec fn comma_value(&self) -> int {
        *self as int
    }

    fn format(&self) -> (r: String) {
        i64_to_comma_decimal(*self as i64)
    }
}

impl CommaFormat for i64 {
    open spec fn comma_value(&self) -> int {
        *self as int
    }

    fn format(&self) -> (r: String) {
        i64_to_comma_decimal(*self)
    }
}

/// The address of a beatmap's `.osu` file.
pub open spec fn map_osu_file_url_text(map_id: nat) -> Seq<char> {
    "https://osu.ppy.sh/osu/"@ + dec(map_id)
}

/// The address of a beatmap's `.osu` file.
pub fn map_osu_file_url(map_id: u32) -> (r: String)
    ensures
        r@ == map_osu_file_url_text(map_id as nat),
{
    let mut s = String::from_str("https://osu.ppy.sh/osu/");
    s.append(crate::text::u64_to_decimal(map_id as u64).as_str());
    s
}

/// Writes a song's length in seconds as `m:ss`, or `h:mm:ss` from one hour
/// on.
pub fn formatted_song_length(seconds: u32) -> (r: String)
    ensures
        r@ == song_length_text(seconds as nat),
{
    formated_song_length(seconds)
}

/// Writes a moment (in seconds since the Unix epoch) so that Discord shows
/// it relative to now.
pub fn discord_time_ago(unix_seconds: i64) -> (r: String)
    ensures
        r@ == crate::utils::osu_utils::relative_timestamp_text(unix_seconds as int),
{
    relative_timestamp(unix_seconds)
}

/// The text in backticks, which Discord shows as code.
pub fn wrap_in_tilde(text: String) -> (r: String)
    ensures
        r@ == "`"@ + text@ + "`"@,
{
    let mut s = String::from_str("`");
    s.append(text.as_str());
    s.append("`");
    s
}

/// The emoji of a grade name written in capitals: `SS`, `S`, `XH`, `SH`,
/// `A`, `B`, `C`, `D` or `F`; `invalid_grade` for any other text.
pub open spec fn upper_grade_emoji(g: Seq<char>) -> Seq<char> {
    if g == "SS"@ {
        "<:SS:1346458936596889640>"@
    } else if g == "S"@ {
        "<:S_:1346458998425128990>"@
    } else if g == "XH"@ {
        "<:SSH:1346459029656047646>"@
    } else if g == "SH"@ {
        "<:SH:1346459119741046794>"@
    } else if g == "A"@ {
        "<:A_:1346459159935193139>"@
    } else if g == "B"@ {
        "<:B_:1346459185512054814>"@
    } else if g == "C"@ {
        "<:C_:1346459204847796264>"@
    } else if g == "D"@ {
        "<:D_:1347295031756587039>"@
    } else if g == "F"@ {
        "<:F_:1346460123173879859>"@
    } else {
        "invalid_grade"@
    }
}

/// The emoji of a grade name already in capitals.
pub fn upper_grade_name_emoji(g: &str) -> (r: String)
    ensures
        r@ == upper_grade_emoji(g@),
{
    let emoji = if str_eq(g, "SS") {
        "<:SS:1346458936596889640>"
    } else if str_eq(g, "S") {
        "<:S_:1346458998425128990>"
    } else if str_eq(g, "XH") {
        "<:SSH:1346459029656047646>"
    } else if str_eq(g, "SH") {
        "<:SH:1346459119741046794>"
    } else if str_eq(g, "A") {
        "<:A_:1346459159935193139>"
    } else if str_eq(g, "B") {
        "<:B_:1346459185512054814>"
    } else if str_eq(g, "C") {
        "<:C_:1346459204847796264>"
    } else if str_eq(g, "D") {
        "<:D_:1347295031756587039>"
    } else if str_eq(g, "F") {
        "<:F_:1346460123173879859>"
    } else {
        "invalid_grade"
    };
    String::from_str(emoji)
}

/// The emoji of a grade written as text (in any case): the text is put in
/// capitals, then named; `invalid_grade` for a text that is no grade.
pub fn grade_emoji(grade: String) -> (r: String)
    ensures
        r@ == upper_grade_emoji(unicode_uppercase(grade@)),
{
    let upper = to_uppercase_string(grade.as_str());
    upper_grade_name_emoji(upper.as_str())
}

} // verus!
