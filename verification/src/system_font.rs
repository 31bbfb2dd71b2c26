use vstd::prelude::*;
use vstd::string::{StrSliceExecFns, StringExecFns};

verus! {

/// The lowercase form of a text, as Unicode defines it for each character.
pub uninterp spec fn lowercased(text: Seq<char>) -> Seq<char>;

/// `str::to_lowercase`: the lowercase equivalent of a string slice, which depends
/// on its characters alone.
#[verifier::external_body]
fn lowercase(text: &str) -> (lower: String)
    ensures
        lower@ == lowercased(text@),
{
    text.to_lowercase()
}

/// The place of the first hyphen-minus at or behind a place of a name, the length
/// of the name where there is none.
pub open spec fn next_dash(name: Seq<char>, from: int) -> int
    decreases name.len() - from,
{
    if from < 0 || from >= name.len() {
        name.len() as int
    } else if name[from] == '-' {
        from
    } else {
        next_dash(name, from + 1)
    }
}

/// The family of a font's name: what stands before its first hyphen-minus.
pub open spec fn family_of(name: Seq<char>) -> Seq<char> {
    name.take(next_dash(name, 0))
}

/// The style of a font's name: what stands between its first hyphen-minus and
/// the next, and Regular for a name without one.
pub open spec fn style_of(name: Seq<char>) -> Seq<char> {
    let dash = next_dash(name, 0);
    if dash >= name.len() {
        "Regular"@
    } else {
        name.subrange(dash + 1, next_dash(name, dash + 1))
    }
}

/// The files in which a font of a name is looked for, in the order in which they
/// are tried: the font folders of the system, then those of the user at `home`.
pub open spec fn font_paths(name: Seq<char>, home: Seq<char>) -> Seq<Seq<char>> {
    let family = family_of(name);
    let style = style_of(name);
    let file = family + "-"@ + style + ".ttf"@;
    seq![
        "/System/Library/Fonts/"@ + family + ".ttc"@,
        "/System/Library/Fonts/"@ + family + ".ttf"@,
        "/Library/Fonts/"@ + file,
        "/Library/Fonts/"@ + family + "/"@ + file,
        "/usr/share/fonts/truetype/"@ + lowercased(family) + "/"@ + file,
        "/usr/share/fonts/TTF/"@ + file,
        home + "/.local/share/fonts/"@ + file,
        home + "/Library/Fonts/"@ + file,
    ]
}

/// Finds the first hyphen-minus at or behind a place of a name.
fn find_dash(name: &str, from: usize) -> (at: usize)
    requires
        from <= name@.len(),
    ensures
        at == next_dash(name@, from as int),
        from <= at <= name@.len(),
{
    let len = name.unicode_len();
    let mut at: usize = from;
    while at < len
        invariant
            from <= at <= len,
            len == name@.len(),
            next_dash(name@, from as int) == next_dash(name@, at as int),
        decreases len - at,
    {
        if name.get_char(at) == '-' {
            return at;
        }
        at = at + 1;
    }
    at
}

/// Lists the files in which a font of a name is looked for.
pub fn system_font_paths(name: &str, home: &str) -> (paths: Vec<String>)
    ensures
        paths@.len() == 8,
        forall|i: int| 0 <= i < 8 ==> (#[trigger] paths@[i])@ == font_paths(name@, home@)[i],
{
    let len = name.unicode_len();
    let dash = find_dash(name, 0);
    let family = name.substring_char(0, dash);
    assert(family@ =~= family_of(name@));
    let style = if dash >= len {
        "Regular"
    } else {
        let end = find_dash(name, dash + 1);
        name.substring_char(dash + 1, end)
    };
    assert(style@ == style_of(name@));
    let lower = lowercase(family);
    let mut file = three(family, "-", style);
    file.append(".ttf");
    let mut paths: Vec<String> = Vec::new();
    paths.push(three("/System/Library/Fonts/", family, ".ttc"));
    paths.push(three("/System/Library/Fonts/", family, ".ttf"));
    paths.push(three("/Library/Fonts/", file.as_str(), ""));
    paths.push(three(three("/Library/Fonts/", family, "/").as_str(), file.as_str(), ""));
    paths.push(
        three(
            three("/usr/share/fonts/truetype/", lower.as_str(), "/").as_str(),
            file.as_str(),
            "",
        ),
    );
    paths.push(three("/usr/share/fonts/TTF/", file.as_str(), ""));
    paths.push(three(home, "/.local/share/fonts/", file.as_str()));
    paths.push(three(home, "/Library/Fonts/", file.as_str()));
    proof {
        reveal_strlit("");
        let want = font_paths(name@, home@);
        assert(""@ =~= Seq::<char>::empty());
        assert(paths@[2]@ =~= want[2]);
        assert(paths@[3]@ =~= want[3]);
        assert(paths@[4]@ =~= want[4]);
        assert(paths@[5]@ =~= want[5]);
    }
    paths
}

/// Three texts, one after another.
fn three(a: &str, b: &str, c: &str) -> (text: String)
    ensures
        text@ == a@ + b@ + c@,
{
    let mut text = String::from_str(a);
    text.append(b);
    text.append(c);
    text
}

} // verus!
