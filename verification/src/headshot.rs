//! Headshot preparation: letterbox geometry, the expand-only prompt, pronoun and
//! quality defaults.
use crate::grok::{supports_quality, DEFAULT_HEADSHOT_QUALITY, quality_supported};
use crate::params::{ensure_quality_supported, quality_support_error, quoted};
use crate::text::{
    ascii_lower, chars_of, contains_sub, occurs_at, tail_clear, head_clear, lemma_seam_by_tail,
    lemma_seam_by_head, lemma_concat_clear, lemma_contains_in_part, lemma_lower_concat, lemma_trim_keeps_clear, decimal, is_ws, opt_string_view, opt_view, owned, push_decimal,
    push_str, str_eq, str_trim, to_ascii_lowercase, trim, trim_end, trim_start,
};
use vstd::prelude::*;

verus! {

broadcast use vstd::string::group_string_axioms;

/// The padded JPEG sent to the API, with its size in pixels.
pub struct PaddedHeadshot {
    pub jpeg: Vec<u8>,
    pub width: u32,
    pub height: u32,
}

// ---------------------------------------------------------------------------
// Letterbox geometry
// ---------------------------------------------------------------------------

/// The message for unusable widths, or `None`.
pub open spec fn pad_widths_error(content_width: u32, canvas_width: u32) -> Option<Seq<char>> {
    if content_width < 64 || content_width > 4096 {
        Some("content_width must be between 64 and 4096, got "@ + decimal(content_width as nat))
    } else if canvas_width < content_width || canvas_width > 8192 {
        Some(
            "canvas_width must be between content_width ("@ + decimal(content_width as nat)
                + ") and 8192, got "@ + decimal(canvas_width as nat),
        )
    } else {
        None
    }
}

/// Checks the resize width (64 to 4096) and the canvas width (from the resize width
/// to 8192) of the letterbox.
pub fn check_pad_widths(content_width: u32, canvas_width: u32) -> (r: Result<(), String>)
    ensures
        match pad_widths_error(content_width, canvas_width) {
            None => r is Ok,
            Some(m) => r matches Err(e) && e@ == m,
        },
{
    if content_width < 64 || content_width > 4096 {
        let mut m = owned("content_width must be between 64 and 4096, got ");
        push_decimal(&mut m, content_width as u64);
        return Err(m);
    }
    if canvas_width < content_width || canvas_width > 8192 {
        let mut m = owned("canvas_width must be between content_width (");
        push_decimal(&mut m, content_width as u64);
        push_str(&mut m, ") and 8192, got ");
        push_decimal(&mut m, canvas_width as u64);
        return Err(m);
    }
    Ok(())
}

/// Refuses a source image with no pixels: both sides must be at least one pixel.
pub fn check_source_dimensions(width: u32, height: u32) -> (r: Result<(), String>)
    ensures
        r is Ok <==> width > 0 && height > 0,
        r matches Err(e) ==> e@ == "Source image has zero dimensions"@,
{
    if width == 0 || height == 0 {
        return Err(owned("Source image has zero dimensions"));
    }
    Ok(())
}

/// `s` without `_` and `-`.
pub open spec fn strip_separators(s: Seq<char>) -> Seq<char>
    decreases s.len(),
{
    if s.len() == 0 {
        s
    } else if s.last() == '_' || s.last() == '-' {
        strip_separators(s.drop_last())
    } else {
        strip_separators(s.drop_last()).push(s.last())
    }
}

/// A gravity name normalised: ASCII lower case, without `_` and `-`.
pub open spec fn gravity_key(gravity: Seq<char>) -> Seq<char> {
    strip_separators(ascii_lower(gravity))
}

/// Where a gravity puts the content: horizontally 0 left, 1 centre, 2 right;
/// vertically 0 top, 1 centre, 2 bottom.  `None` for an unknown gravity.
pub open spec fn gravity_anchor(key: Seq<char>) -> Option<(int, int)> {
    if key == "north"@ || key == "n"@ {
        Some((1, 0))
    } else if key == "northwest"@ || key == "nw"@ {
        Some((0, 0))
    } else if key == "northeast"@ || key == "ne"@ {
        Some((2, 0))
    } else if key == "west"@ || key == "w"@ {
        Some((0, 1))
    } else if key == "east"@ || key == "e"@ {
        Some((2, 1))
    } else if key == "center"@ || key == "centre"@ || key == "c"@ {
        Some((1, 1))
    } else if key == "south"@ || key == "s"@ {
        Some((1, 2))
    } else if key == "southwest"@ || key == "sw"@ {
        Some((0, 2))
    } else if key == "southeast"@ || key == "se"@ {
        Some((2, 2))
    } else {
        None
    }
}

/// Offset along one axis of a `content`-long piece in a `room`-long space:
/// start, centre (rounded down), or end; 0 when the piece does not fit.
pub open spec fn axis_offset(anchor: int, room: u32, content: u32) -> u32 {
    if anchor == 0 {
        0
    } else if anchor == 1 {
        (room.saturating_sub(content) / 2) as u32
    } else {
        room.saturating_sub(content)
    }
}

/// The message for an unknown gravity.
pub open spec fn gravity_error(gravity: Seq<char>) -> Seq<char> {
    "Invalid gravity "@ + quoted(gravity)
        + ". Valid: North, NorthWest, NorthEast, Center, West, East, South, SouthWest, SouthEast"@
}

fn strip_separators_exec(s: &Vec<char>) -> (r: Vec<char>)
    ensures
        r@ == strip_separators(s@),
{
    let mut r: Vec<char> = Vec::new();
    let mut i: usize = 0;
    while i < s.len()
        invariant
            i <= s.len(),
            r@ == strip_separators(s@.take(i as int)),
        decreases s.len() - i,
    {
        assert(s@.take(i + 1).drop_last() =~= s@.take(i as int));
        if s[i] != '_' && s[i] != '-' {
            r.push(s[i]);
        }
        i = i + 1;
    }
    assert(s@.take(s.len() as int) =~= s@);
    r
}

fn key_is(key: &Vec<char>, name: &str) -> (r: bool)
    ensures
        r == (key@ == name@),
{
    crate::text::chars_eq(key, &chars_of(name))
}

/// Where the resized `nw`×`nh` content goes on the `cw`×`ch` canvas for a gravity
/// name (case, `_` and `-` ignored).
pub fn gravity_offset(gravity: &str, cw: u32, ch: u32, nw: u32, nh: u32) -> (r: Result<(u32, u32), String>)
    ensures
        match gravity_anchor(gravity_key(gravity@)) {
            Some((h, v)) => r == Ok::<(u32, u32), String>((axis_offset(h, cw, nw), axis_offset(v, ch, nh))),
            None => r matches Err(e) && e@ == gravity_error(gravity@),
        },
{
    let lower = to_ascii_lowercase(gravity);
    let g = strip_separators_exec(&chars_of(lower.as_str()));
    let x_left: u32 = 0;
    let x_center: u32 = cw.saturating_sub(nw) / 2;
    let x_right: u32 = cw.saturating_sub(nw);
    let y_top: u32 = 0;
    let y_center: u32 = ch.saturating_sub(nh) / 2;
    let y_bottom: u32 = ch.saturating_sub(nh);
    if key_is(&g, "north") || key_is(&g, "n") {
        Ok((x_center, y_top))
    } else if key_is(&g, "northwest") || key_is(&g, "nw") {
        Ok((x_left, y_top))
    } else if key_is(&g, "northeast") || key_is(&g, "ne") {
        Ok((x_right, y_top))
    } else if key_is(&g, "west") || key_is(&g, "w") {
        Ok((x_left, y_center))
    } else if key_is(&g, "east") || key_is(&g, "e") {
        Ok((x_right, y_center))
    } else if key_is(&g, "center") || key_is(&g, "centre") || key_is(&g, "c") {
        Ok((x_center, y_center))
    } else if key_is(&g, "south") || key_is(&g, "s") {
        Ok((x_center, y_bottom))
    } else if key_is(&g, "southwest") || key_is(&g, "sw") {
        Ok((x_left, y_bottom))
    } else if key_is(&g, "southeast") || key_is(&g, "se") {
        Ok((x_right, y_bottom))
    } else {
        let mut m = owned("Invalid gravity \"");
        push_str(&mut m, gravity);
        push_str(
            &mut m,
            "\". Valid: North, NorthWest, NorthEast, Center, West, East, South, SouthWest, SouthEast",
        );
        proof {
            reveal_strlit("\"");
            reveal_strlit("Invalid gravity \"");
            reveal_strlit("Invalid gravity ");
            reveal_strlit(
                "\". Valid: North, NorthWest, NorthEast, Center, West, East, South, SouthWest, SouthEast",
            );
            reveal_strlit(
                ". Valid: North, NorthWest, NorthEast, Center, West, East, South, SouthWest, SouthEast",
            );
            assert(m@ =~= gravity_error(gravity@));
        }
        Err(m)
    }
}

/// Law: every known gravity places the `nw`×`nh` content inside the `cw`×`ch`
/// canvas: East, NorthEast and SouthEast against the right edge, West, NorthWest
/// and SouthWest against the left edge, the others centred across; North,
/// NorthWest and NorthEast against the top, South, SouthWest and SouthEast against
/// the bottom, the others centred down.  Any other name is refused.
pub proof fn law_gravity_places_content(gravity: Seq<char>, cw: u32, ch: u32, nw: u32, nh: u32)
    requires
        nw <= cw,
        nh <= ch,
    ensures
        ({
            let key = gravity_key(gravity);
            let east = key == "east"@ || key == "e"@ || key == "northeast"@ || key == "ne"@
                || key == "southeast"@ || key == "se"@;
            let west = key == "west"@ || key == "w"@ || key == "northwest"@ || key == "nw"@
                || key == "southwest"@ || key == "sw"@;
            let north = key == "north"@ || key == "n"@ || key == "northwest"@ || key == "nw"@
                || key == "northeast"@ || key == "ne"@;
            let south = key == "south"@ || key == "s"@ || key == "southwest"@ || key == "sw"@
                || key == "southeast"@ || key == "se"@;
            let middle = key == "center"@ || key == "centre"@ || key == "c"@ || key == "west"@
                || key == "w"@ || key == "east"@ || key == "e"@;
            let across = key == "north"@ || key == "n"@ || key == "south"@ || key == "s"@
                || key == "center"@ || key == "centre"@ || key == "c"@;
            &&& (gravity_anchor(key) is Some <==> east || west || across)
            &&& gravity_anchor(key) matches Some((h, v)) ==> {
                &&& east ==> axis_offset(h, cw, nw) + nw == cw
                &&& west ==> axis_offset(h, cw, nw) == 0
                &&& across ==> axis_offset(h, cw, nw) == (cw - nw) / 2
                &&& north ==> axis_offset(v, ch, nh) == 0
                &&& south ==> axis_offset(v, ch, nh) + nh == ch
                &&& middle ==> axis_offset(v, ch, nh) == (ch - nh) / 2
            }
        }),
{
    reveal_strlit("north");
    reveal_strlit("n");
    reveal_strlit("northwest");
    reveal_strlit("nw");
    reveal_strlit("northeast");
    reveal_strlit("ne");
    reveal_strlit("west");
    reveal_strlit("w");
    reveal_strlit("east");
    reveal_strlit("e");
    reveal_strlit("center");
    reveal_strlit("centre");
    reveal_strlit("c");
    reveal_strlit("south");
    reveal_strlit("s");
    reveal_strlit("southwest");
    reveal_strlit("sw");
    reveal_strlit("southeast");
    reveal_strlit("se");
    let key = gravity_key(gravity);
    let names = seq![
        "north"@, "n"@, "northwest"@, "nw"@, "northeast"@, "ne"@, "west"@, "w"@, "east"@, "e"@,
        "center"@, "centre"@, "c"@, "south"@, "s"@, "southwest"@, "sw"@, "southeast"@, "se"@
    ];
    assert forall|i: int, j: int| 0 <= i < j < names.len() implies names[i] != names[j] by {
        if names[i] == names[j] {
            assert(names[i].len() == names[j].len());
            assert(names[i][0] == names[j][0]);
            if names[i].len() > 1 {
                assert(names[i][1] == names[j][1]);
            }
            if names[i].len() > 5 {
                assert(names[i][5] == names[j][5]);
            }
        }
    }
    assert(cw - nw == cw.saturating_sub(nw));
    assert(ch - nh == ch.saturating_sub(nh));
}

// ---------------------------------------------------------------------------
// The expand-only prompt
// ---------------------------------------------------------------------------

/// The opening of every headshot prompt.
pub open spec fn prompt_intro() -> Seq<char> {
    "Only expand this photograph into the pure white padded areas if the subject is cut off. Do not reframe, re-pose, or re-shoot the subject. Keep every pixel of the existing person unchanged: exact face, head angle, pose, hair, expression, skin texture, clothing, logos/text on clothing, colors, and lighting."@
}

/// The start of the fill instructions, before the pronoun.
pub open spec fn fill_lead() -> Seq<char> {
    "Where blank white space begins at the edges and "@
}

/// The fill instructions between the two pronouns.
pub open spec fn fill_body() -> Seq<char> {
    " body is cut off, fill that white only by completing "@
}

/// The fill instructions between the second pronoun and the clothing.
pub open spec fn fill_clothing() -> Seq<char> {
    " shoulders/body in "@
}

/// The closing instructions, after the clothing.
pub open spec fn fill_close() -> Seq<char> {
    ". If the subject is already fully visible, do not invent extra limbs or a second pair of shoulders. Put the whole scene on a clean solid pure white background (replace any non-white backdrop with white; keep the person unchanged). Do not change logos or branding on the clothing. Do not cut out hair or change the silhouette."@
}

/// The closing instructions, naming the pronoun and the clothing for any fill.
pub open spec fn prompt_fill(pronoun: Seq<char>, clothing: Seq<char>) -> Seq<char> {
    fill_lead() + pronoun + fill_body() + pronoun + fill_clothing() + clothing + fill_close()
}

/// The clothing named for the fill: the trimmed description, or the photo's own
/// clothing when none is given or it is blank.
pub open spec fn clothing_fill(clothing: Option<Seq<char>>) -> Seq<char> {
    match clothing {
        Some(c) => if trim(c).len() > 0 {
            trim(c)
        } else {
            "the same clothing as in the photo"@
        },
        None => "the same clothing as in the photo"@,
    }
}

/// The headshot prompt: the intro, the notes to preserve when they are not blank,
/// and the fill instructions, joined by single spaces.
pub open spec fn headshot_prompt(
    clothing: Option<Seq<char>>,
    notes: Option<Seq<char>>,
    pronoun: Seq<char>,
) -> Seq<char> {
    let middle = match notes {
        Some(n) => if trim(n).len() > 0 {
            " Must preserve exactly: "@ + n + "."@
        } else {
            Seq::empty()
        },
        None => Seq::empty(),
    };
    prompt_intro() + middle + " "@ + prompt_fill(pronoun, clothing_fill(clothing))
}

/// Builds the expand-only prompt: keep the person unchanged, fill cut-off shoulders
/// with the given clothing, white background.
pub fn build_headshot_prompt(clothing: Option<&str>, notes: Option<&str>, pronoun: &str) -> (r:
    String)
    ensures
        r@ == headshot_prompt(opt_view(clothing), opt_view(notes), pronoun@),
{
    let fill = match clothing {
        Some(c) => {
            let t = str_trim(c);
            if t.as_str().is_empty() {
                owned("the same clothing as in the photo")
            } else {
                t
            }
        },
        None => owned("the same clothing as in the photo"),
    };
    let mut r = owned(
        "Only expand this photograph into the pure white padded areas if the subject is cut off. Do not reframe, re-pose, or re-shoot the subject. Keep every pixel of the existing person unchanged: exact face, head angle, pose, hair, expression, skin texture, clothing, logos/text on clothing, colors, and lighting.",
    );
    let mut middle = String::new();
    if let Some(n) = notes {
        let t = str_trim(n);
        if !t.as_str().is_empty() {
            push_str(&mut middle, " Must preserve exactly: ");
            push_str(&mut middle, n);
            push_str(&mut middle, ".");
        }
    }
    push_str(&mut r, middle.as_str());
    push_str(&mut r, " ");
    push_str(&mut r, "Where blank white space begins at the edges and ");
    push_str(&mut r, pronoun);
    push_str(&mut r, " body is cut off, fill that white only by completing ");
    push_str(&mut r, pronoun);
    push_str(&mut r, " shoulders/body in ");
    push_str(&mut r, fill.as_str());
    push_str(
        &mut r,
        ". If the subject is already fully visible, do not invent extra limbs or a second pair of shoulders. Put the whole scene on a clean solid pure white background (replace any non-white backdrop with white; keep the person unchanged). Do not change logos or branding on the clothing. Do not cut out hair or change the silhouette.",
    );
    assert(middle@ == match opt_view(notes) {
        Some(n) => if trim(n).len() > 0 {
            " Must preserve exactly: "@ + n + "."@
        } else {
            Seq::<char>::empty()
        },
        None => Seq::<char>::empty(),
    });
    assert(r@ =~= headshot_prompt(opt_view(clothing), opt_view(notes), pronoun@));
    r
}

// ---------------------------------------------------------------------------
// Words the prompt never holds
// ---------------------------------------------------------------------------

/// The words that would ask for a cut-out portrait, which the prompt never holds.
pub open spec fn refused_word(w: Seq<char>) -> bool {
    ||| w == "transparent"@
    ||| w == "cutout"@
    ||| w == "face centered"@
}

/// Position `i` of `s` starts with the first six characters of `w`.
pub open spec fn starts_six(s: Seq<char>, i: int, w: Seq<char>) -> bool {
    &&& 0 <= i
    &&& i + 6 <= s.len()
    &&& s[i] == w[0]
    &&& s[i + 1] == w[1]
    &&& s[i + 2] == w[2]
    &&& s[i + 3] == w[3]
    &&& s[i + 4] == w[4]
    &&& s[i + 5] == w[5]
}

/// From position `i` on, no position of `s` starts a refused word.
pub open spec fn refused_free_from(s: Seq<char>, i: int) -> bool
    decreases s.len() - i,
{
    if i >= s.len() || i < 0 {
        true
    } else {
        &&& !starts_six(s, i, "transparent"@)
        &&& !starts_six(s, i, "cutout"@)
        &&& !starts_six(s, i, "face centered"@)
        &&& refused_free_from(s, i + 1)
    }
}

proof fn lemma_refused_free_at(s: Seq<char>, i: int, j: int)
    requires
        0 <= i <= j < s.len(),
        refused_free_from(s, i),
    ensures
        !starts_six(s, j, "transparent"@),
        !starts_six(s, j, "cutout"@),
        !starts_six(s, j, "face centered"@),
    decreases j - i,
{
    if i < j {
        lemma_refused_free_at(s, i + 1, j);
    }
}

/// A text in which no position starts a refused word holds none of them.
proof fn lemma_refused_free_clear(s: Seq<char>, w: Seq<char>)
    requires
        refused_free_from(s, 0),
        refused_word(w),
    ensures
        !contains_sub(s, w),
{
    reveal_strlit("transparent");
    reveal_strlit("cutout");
    reveal_strlit("face centered");
    if contains_sub(s, w) {
        let j = choose|j: int| 0 <= j <= s.len() && #[trigger] occurs_at(s, w, j);
        assert(s.skip(j).subrange(0, w.len() as int) == w);
        assert forall|k: int| 0 <= k < 6 implies s[j + k] == w[k] by {
            assert(s.skip(j).subrange(0, w.len() as int)[k] == s[j + k]);
        }
        lemma_refused_free_at(s, 0, j);
    }
}

/// Where an occurrence of `w` running past the end of `a` would have to start.
pub open spec fn seam_start(a: Seq<char>, w: Seq<char>) -> int {
    if a.len() + 1 > w.len() {
        a.len() + 1 - w.len()
    } else {
        0
    }
}

/// `head_clear` reads only the first two characters.
proof fn lemma_head_clear_extend(b: Seq<char>, x: Seq<char>, w: Seq<char>, k: int)
    requires
        b.len() >= 2,
        head_clear(b, w, k),
    ensures
        head_clear(b + x, w, k),
    decreases w.len() - k,
{
    if 1 <= k < w.len() {
        lemma_head_clear_extend(b, x, w, k + 1);
    }
}

/// Two texts without `w` whose seam the end of the first or the start of the
/// second rules out join into a text without `w`.
proof fn lemma_join_clear(a: Seq<char>, b: Seq<char>, w: Seq<char>)
    requires
        refused_word(w),
        !contains_sub(a, w),
        !contains_sub(b, w),
        tail_clear(a, w, seam_start(a, w)) || (b.len() >= 2 && head_clear(b, w, 1)),
    ensures
        !contains_sub(a + b, w),
{
    reveal_strlit("transparent");
    reveal_strlit("cutout");
    reveal_strlit("face centered");
    if tail_clear(a, w, seam_start(a, w)) {
        lemma_seam_by_tail(a, b, w);
    } else {
        lemma_seam_by_head(a, b, w);
    }
    lemma_concat_clear(a, b, w);
}

/// The opening instructions hold no refused word, and none crosses their end.
proof fn lemma_intro_safe(w: Seq<char>)
    requires
        refused_word(w),
    ensures
        !contains_sub(ascii_lower(prompt_intro()), w),
        ascii_lower(prompt_intro()).len() >= 2,
        tail_clear(ascii_lower(prompt_intro()), w, seam_start(ascii_lower(prompt_intro()), w)),
{
    reveal_strlit("transparent");
    reveal_strlit("cutout");
    reveal_strlit("face centered");
    reveal_strlit("Only expand this photograph into the pure white padded areas if the subject is cut off. Do not reframe, re-pose, or re-shoot the subject. Keep every pixel of the existing person unchanged: exact face, head angle, pose, hair, expression, skin texture, clothing, logos/text on clothing, colors, and lighting.");
    let k = ascii_lower(prompt_intro());
    // Each step unfolds the check over forty positions, from the end back to the start.
    reveal_with_fuel(refused_free_from, 42);
    assert(refused_free_from(k, 280));
    assert(refused_free_from(k, 240));
    assert(refused_free_from(k, 200));
    assert(refused_free_from(k, 160));
    assert(refused_free_from(k, 120));
    assert(refused_free_from(k, 80));
    assert(refused_free_from(k, 40));
    assert(refused_free_from(k, 0));
    lemma_refused_free_clear(k, w);
    reveal_with_fuel(tail_clear, 14);
    reveal_with_fuel(head_clear, 14);
}

/// The lead-in to the notes holds no refused word, and none crosses its end.
proof fn lemma_notes_lead_safe(w: Seq<char>)
    requires
        refused_word(w),
    ensures
        !contains_sub(ascii_lower(" Must preserve exactly: "@), w),
        ascii_lower(" Must preserve exactly: "@).len() >= 2,
        tail_clear(ascii_lower(" Must preserve exactly: "@), w, seam_start(ascii_lower(" Must preserve exactly: "@), w)),
{
    reveal_strlit("transparent");
    reveal_strlit("cutout");
    reveal_strlit("face centered");
    reveal_strlit(" Must preserve exactly: ");
    let k = ascii_lower(" Must preserve exactly: "@);
    // Each step unfolds the check over forty positions, from the end back to the start.
    reveal_with_fuel(refused_free_from, 42);
    assert(refused_free_from(k, 0));
    lemma_refused_free_clear(k, w);
    reveal_with_fuel(tail_clear, 14);
    reveal_with_fuel(head_clear, 14);
}

/// The close of the notes and the fill lead hold no refused word, and none crosses their ends.
proof fn lemma_notes_close_safe(w: Seq<char>)
    requires
        refused_word(w),
    ensures
        !contains_sub(ascii_lower(". "@ + fill_lead()), w),
        ascii_lower(". "@ + fill_lead()).len() >= 2,
        tail_clear(ascii_lower(". "@ + fill_lead()), w, seam_start(ascii_lower(". "@ + fill_lead()), w)),
        head_clear(ascii_lower(". "@ + fill_lead()), w, 1),
{
    reveal_strlit("transparent");
    reveal_strlit("cutout");
    reveal_strlit("face centered");
    reveal_strlit(". ");
    reveal_strlit("Where blank white space begins at the edges and ");
    let k = ascii_lower(". "@ + fill_lead());
    // Each step unfolds the check over forty positions, from the end back to the start.
    reveal_with_fuel(refused_free_from, 42);
    assert(refused_free_from(k, 40));
    assert(refused_free_from(k, 0));
    lemma_refused_free_clear(k, w);
    reveal_with_fuel(tail_clear, 14);
    reveal_with_fuel(head_clear, 14);
}

/// The fill lead holds no refused word, and none crosses its end.
proof fn lemma_fill_lead_safe(w: Seq<char>)
    requires
        refused_word(w),
    ensures
        !contains_sub(ascii_lower(" "@ + fill_lead()), w),
        ascii_lower(" "@ + fill_lead()).len() >= 2,
        tail_clear(ascii_lower(" "@ + fill_lead()), w, seam_start(ascii_lower(" "@ + fill_lead()), w)),
{
    reveal_strlit("transparent");
    reveal_strlit("cutout");
    reveal_strlit("face centered");
    reveal_strlit(" ");
    reveal_strlit("Where blank white space begins at the edges and ");
    let k = ascii_lower(" "@ + fill_lead());
    // Each step unfolds the check over forty positions, from the end back to the start.
    reveal_with_fuel(refused_free_from, 42);
    assert(refused_free_from(k, 40));
    assert(refused_free_from(k, 0));
    lemma_refused_free_clear(k, w);
    reveal_with_fuel(tail_clear, 14);
    reveal_with_fuel(head_clear, 14);
}

/// The text between the pronouns holds no refused word, and none crosses its ends.
proof fn lemma_fill_body_safe(w: Seq<char>)
    requires
        refused_word(w),
    ensures
        !contains_sub(ascii_lower(fill_body()), w),
        ascii_lower(fill_body()).len() >= 2,
        tail_clear(ascii_lower(fill_body()), w, seam_start(ascii_lower(fill_body()), w)),
        head_clear(ascii_lower(fill_body()), w, 1),
{
    reveal_strlit("transparent");
    reveal_strlit("cutout");
    reveal_strlit("face centered");
    reveal_strlit(" body is cut off, fill that white only by completing ");
    let k = ascii_lower(fill_body());
    // Each step unfolds the check over forty positions, from the end back to the start.
    reveal_with_fuel(refused_free_from, 42);
    assert(refused_free_from(k, 40));
    assert(refused_free_from(k, 0));
    lemma_refused_free_clear(k, w);
    reveal_with_fuel(tail_clear, 14);
    reveal_with_fuel(head_clear, 14);
}

/// The text before the clothing holds no refused word, and none crosses its ends.
proof fn lemma_fill_clothing_safe(w: Seq<char>)
    requires
        refused_word(w),
    ensures
        !contains_sub(ascii_lower(fill_clothing()), w),
        ascii_lower(fill_clothing()).len() >= 2,
        tail_clear(ascii_lower(fill_clothing()), w, seam_start(ascii_lower(fill_clothing()), w)),
        head_clear(ascii_lower(fill_clothing()), w, 1),
{
    reveal_strlit("transparent");
    reveal_strlit("cutout");
    reveal_strlit("face centered");
    reveal_strlit(" shoulders/body in ");
    let k = ascii_lower(fill_clothing());
    // Each step unfolds the check over forty positions, from the end back to the start.
    reveal_with_fuel(refused_free_from, 42);
    assert(refused_free_from(k, 0));
    lemma_refused_free_clear(k, w);
    reveal_with_fuel(tail_clear, 14);
    reveal_with_fuel(head_clear, 14);
}

/// The default clothing holds no refused word, and none crosses its end.
proof fn lemma_default_clothing_safe(w: Seq<char>)
    requires
        refused_word(w),
    ensures
        !contains_sub(ascii_lower("the same clothing as in the photo"@), w),
        ascii_lower("the same clothing as in the photo"@).len() >= 2,
        tail_clear(ascii_lower("the same clothing as in the photo"@), w, seam_start(ascii_lower("the same clothing as in the photo"@), w)),
{
    reveal_strlit("transparent");
    reveal_strlit("cutout");
    reveal_strlit("face centered");
    reveal_strlit("the same clothing as in the photo");
    let k = ascii_lower("the same clothing as in the photo"@);
    // Each step unfolds the check over forty positions, from the end back to the start.
    reveal_with_fuel(refused_free_from, 42);
    assert(refused_free_from(k, 0));
    lemma_refused_free_clear(k, w);
    reveal_with_fuel(tail_clear, 14);
    reveal_with_fuel(head_clear, 14);
}

/// The closing instructions hold no refused word, and none crosses their start.
proof fn lemma_fill_close_safe(w: Seq<char>)
    requires
        refused_word(w),
    ensures
        !contains_sub(ascii_lower(fill_close()), w),
        ascii_lower(fill_close()).len() >= 2,
        head_clear(ascii_lower(fill_close()), w, 1),
{
    reveal_strlit("transparent");
    reveal_strlit("cutout");
    reveal_strlit("face centered");
    reveal_strlit(". If the subject is already fully visible, do not invent extra limbs or a second pair of shoulders. Put the whole scene on a clean solid pure white background (replace any non-white backdrop with white; keep the person unchanged). Do not change logos or branding on the clothing. Do not cut out hair or change the silhouette.");
    let k = ascii_lower(fill_close());
    // Each step unfolds the check over forty positions, from the end back to the start.
    reveal_with_fuel(refused_free_from, 42);
    assert(refused_free_from(k, 320));
    assert(refused_free_from(k, 280));
    assert(refused_free_from(k, 240));
    assert(refused_free_from(k, 200));
    assert(refused_free_from(k, 160));
    assert(refused_free_from(k, 120));
    assert(refused_free_from(k, 80));
    assert(refused_free_from(k, 40));
    assert(refused_free_from(k, 0));
    lemma_refused_free_clear(k, w);
    reveal_with_fuel(tail_clear, 14);
    reveal_with_fuel(head_clear, 14);
}

/// The fill instructions from the first pronoun on hold no refused word when the
/// pronoun and the clothing do not.
proof fn lemma_fill_rest_clear(pronoun: Seq<char>, cf: Seq<char>, w: Seq<char>)
    requires
        refused_word(w),
        !contains_sub(ascii_lower(pronoun), w),
        !contains_sub(ascii_lower(cf), w),
    ensures
        !contains_sub(
            ascii_lower(
                pronoun + (fill_body() + (pronoun + (fill_clothing() + (cf + fill_close())))),
            ),
            w,
        ),
{
    lemma_fill_body_safe(w);
    lemma_fill_clothing_safe(w);
    lemma_fill_close_safe(w);
    let k2 = ascii_lower(fill_body());
    let k3 = ascii_lower(fill_clothing());
    let k4 = ascii_lower(fill_close());
    let c = ascii_lower(cf);
    let p = ascii_lower(pronoun);
    lemma_lower_concat(cf, fill_close());
    let r4 = c + k4;
    lemma_join_clear(c, k4, w);
    lemma_lower_concat(fill_clothing(), cf + fill_close());
    let r3 = k3 + r4;
    lemma_join_clear(k3, r4, w);
    lemma_lower_concat(pronoun, fill_clothing() + (cf + fill_close()));
    let r2 = p + r3;
    lemma_head_clear_extend(k3, r4, w, 1);
    lemma_join_clear(p, r3, w);
    lemma_lower_concat(fill_body(), pronoun + (fill_clothing() + (cf + fill_close())));
    let r1 = k2 + r2;
    lemma_join_clear(k2, r2, w);
    lemma_lower_concat(pronoun, fill_body() + (pronoun + (fill_clothing() + (cf + fill_close()))));
    lemma_head_clear_extend(k2, r2, w, 1);
    lemma_join_clear(p, r1, w);
}

/// Law: lower-cased, the headshot prompt never holds "transparent", "cutout" or
/// "face centered" when the clothing, the notes and the pronoun, lower-cased, do not.
pub proof fn law_prompt_refuses_cutout_words(
    clothing: Option<Seq<char>>,
    notes: Option<Seq<char>>,
    pronoun: Seq<char>,
    w: Seq<char>,
)
    requires
        refused_word(w),
        clothing matches Some(c) ==> !contains_sub(ascii_lower(c), w),
        notes matches Some(n) ==> !contains_sub(ascii_lower(n), w),
        !contains_sub(ascii_lower(pronoun), w),
    ensures
        !contains_sub(ascii_lower(headshot_prompt(clothing, notes, pronoun)), w),
{
    let cf = clothing_fill(clothing);
    match clothing {
        Some(c0) => {
            if trim(c0).len() > 0 {
                lemma_trim_keeps_clear(c0, w);
            } else {
                lemma_default_clothing_safe(w);
            }
        },
        None => {
            lemma_default_clothing_safe(w);
        },
    }
    lemma_fill_rest_clear(pronoun, cf, w);
    let raw_r = pronoun + (fill_body() + (pronoun + (fill_clothing() + (cf + fill_close()))));
    let r = ascii_lower(raw_r);
    lemma_intro_safe(w);
    let k0 = ascii_lower(prompt_intro());
    let prompt = headshot_prompt(clothing, notes, pronoun);
    let blank = match notes {
        Some(n) => trim(n).len() == 0,
        None => true,
    };
    if blank {
        lemma_fill_lead_safe(w);
        let ks = ascii_lower(" "@ + fill_lead());
        assert(prompt =~= prompt_intro() + ((" "@ + fill_lead()) + raw_r));
        lemma_lower_concat(" "@ + fill_lead(), raw_r);
        lemma_join_clear(ks, r, w);
        lemma_lower_concat(prompt_intro(), (" "@ + fill_lead()) + raw_r);
        lemma_join_clear(k0, ks + r, w);
    } else {
        lemma_notes_lead_safe(w);
        lemma_notes_close_safe(w);
        let km = ascii_lower(" Must preserve exactly: "@);
        let kd = ascii_lower(". "@ + fill_lead());
        let n = notes->0;
        let nl = ascii_lower(n);
        reveal_strlit(". ");
        reveal_strlit(".");
        reveal_strlit(" ");
        assert(prompt =~= prompt_intro() + (" Must preserve exactly: "@ + (n + ((". "@
            + fill_lead()) + raw_r))));
        lemma_lower_concat(". "@ + fill_lead(), raw_r);
        lemma_join_clear(kd, r, w);
        lemma_lower_concat(n, (". "@ + fill_lead()) + raw_r);
        lemma_head_clear_extend(kd, r, w, 1);
        lemma_join_clear(nl, kd + r, w);
        lemma_lower_concat(" Must preserve exactly: "@, n + ((". "@ + fill_lead()) + raw_r));
        lemma_join_clear(km, nl + (kd + r), w);
        lemma_lower_concat(
            prompt_intro(),
            " Must preserve exactly: "@ + (n + ((". "@ + fill_lead()) + raw_r)),
        );
        lemma_join_clear(k0, km + (nl + (kd + r)), w);
    }
}

/// Law: lower-cased, every headshot prompt asks only to expand the photograph, not
/// to reframe it, and asks for a white background.
pub proof fn law_prompt_is_expand_only(
    clothing: Option<Seq<char>>,
    notes: Option<Seq<char>>,
    pronoun: Seq<char>,
)
    ensures
        contains_sub(ascii_lower(headshot_prompt(clothing, notes, pronoun)), "only expand"@),
        contains_sub(ascii_lower(headshot_prompt(clothing, notes, pronoun)), "do not reframe"@),
        contains_sub(ascii_lower(headshot_prompt(clothing, notes, pronoun)), "white background"@),
{
    reveal_strlit("only expand");
    reveal_strlit("do not reframe");
    reveal_strlit("white background");
    reveal_strlit(
        "Only expand this photograph into the pure white padded areas if the subject is cut off. Do not reframe, re-pose, or re-shoot the subject. Keep every pixel of the existing person unchanged: exact face, head angle, pose, hair, expression, skin texture, clothing, logos/text on clothing, colors, and lighting.",
    );
    reveal_strlit(
        ". If the subject is already fully visible, do not invent extra limbs or a second pair of shoulders. Put the whole scene on a clean solid pure white background (replace any non-white backdrop with white; keep the person unchanged). Do not change logos or branding on the clothing. Do not cut out hair or change the silhouette.",
    );
    let prompt = headshot_prompt(clothing, notes, pronoun);
    let k0 = ascii_lower(prompt_intro());
    let k4 = ascii_lower(fill_close());
    assert(occurs_at(k0, "only expand"@, 0)) by {
        assert(k0.skip(0).subrange(0, 11) =~= "only expand"@);
    }
    assert(occurs_at(k0, "do not reframe"@, 88)) by {
        assert(k0.skip(88).subrange(0, 14) =~= "do not reframe"@);
    }
    assert(occurs_at(k4, "white background"@, 142)) by {
        assert(k4.skip(142).subrange(0, 16) =~= "white background"@);
    }
    let rest = prompt.skip(prompt_intro().len() as int);
    assert(prompt =~= prompt_intro() + rest);
    lemma_lower_concat(prompt_intro(), rest);
    lemma_contains_in_part(k0, ascii_lower(rest), "only expand"@);
    lemma_contains_in_part(k0, ascii_lower(rest), "do not reframe"@);
    let front = prompt.take(prompt.len() - fill_close().len());
    assert(prompt =~= front + fill_close());
    lemma_lower_concat(front, fill_close());
    lemma_contains_in_part(ascii_lower(front), k4, "white background"@);
}

// ---------------------------------------------------------------------------
// Pronoun and quality
// ---------------------------------------------------------------------------

/// The possessive pronoun for a normalised (trimmed, lower-case) input, or `None`.
pub open spec fn pronoun_for(p: Seq<char>) -> Option<Seq<char>> {
    if p == "his"@ || p == "her"@ || p == "their"@ {
        Some(p)
    } else if p == "he"@ {
        Some("his"@)
    } else if p == "she"@ {
        Some("her"@)
    } else if p == "they"@ {
        Some("their"@)
    } else {
        None
    }
}

/// The input to normalise: the given pronoun, or `their`, trimmed and lower-cased.
pub open spec fn pronoun_key(raw: Option<Seq<char>>) -> Seq<char> {
    ascii_lower(
        trim(
            match raw {
                Some(p) => p,
                None => "their"@,
            },
        ),
    )
}

/// The message for an unusable pronoun.
pub open spec fn pronoun_message(raw: Option<Seq<char>>) -> Seq<char> {
    "pronoun must be \"his\", \"her\", or \"their\" (got "@ + quoted(
        match raw {
            Some(s) => s,
            None => ""@,
        },
    ) + ")"@
}

/// Normalises the pronoun: `his`/`her`/`their`, or `he`/`she`/`they` mapped to them;
/// `their` when none is given.
pub fn normalize_pronoun(raw: Option<&str>) -> (r: Result<String, String>)
    ensures
        match pronoun_for(pronoun_key(opt_view(raw))) {
            Some(p) => r matches Ok(s) && s@ == p,
            None => r matches Err(e) && e@ == pronoun_message(opt_view(raw)),
        },
{
    let base = match raw {
        Some(s) => s,
        None => "their",
    };
    let trimmed = str_trim(base);
    let p = to_ascii_lowercase(trimmed.as_str());
    if str_eq(p.as_str(), "his") || str_eq(p.as_str(), "her") || str_eq(p.as_str(), "their") {
        Ok(p)
    } else if str_eq(p.as_str(), "he") {
        Ok(owned("his"))
    } else if str_eq(p.as_str(), "she") {
        Ok(owned("her"))
    } else if str_eq(p.as_str(), "they") {
        Ok(owned("their"))
    } else {
        let given = match raw {
            Some(s) => s,
            None => "",
        };
        let mut m = owned("pronoun must be \"his\", \"her\", or \"their\" (got \"");
        push_str(&mut m, given);
        push_str(&mut m, "\")");
        proof {
            reveal_strlit("\"");
            reveal_strlit(")");
            reveal_strlit("\")");
            reveal_strlit("pronoun must be \"his\", \"her\", or \"their\" (got \"");
            reveal_strlit("pronoun must be \"his\", \"her\", or \"their\" (got ");
        }
        assert(m@ =~= pronoun_message(opt_view(raw)));
        Err(m)
    }
}

/// The quality sent for a headshot, or the message refusing it.
pub open spec fn headshot_quality(model: Seq<char>, quality: Option<Seq<char>>) -> Result<
    Option<Seq<char>>,
    Seq<char>,
> {
    if supports_quality(model) {
        Ok(
            Some(
                match quality {
                    Some(q) => q,
                    None => "medium"@,
                },
            ),
        )
    } else {
        match quality_support_error(model, quality) {
            Some(m) => Err(m),
            None => Ok(None),
        }
    }
}

/// Law: a headshot on a model that takes a quality is sent the quality given, or
/// `medium` when none is given.
pub proof fn law_headshot_quality_default(model: Seq<char>, quality: Option<Seq<char>>)
    requires
        supports_quality(model),
    ensures
        quality matches Some(q) ==> headshot_quality(model, quality) == Ok::<
            Option<Seq<char>>,
            Seq<char>,
        >(Some(q)),
        quality is None ==> headshot_quality(model, quality) == Ok::<
            Option<Seq<char>>,
            Seq<char>,
        >(Some("medium"@)),
{
}

/// The quality sent for a headshot: for models that take one, the given quality or
/// `medium`; for others none, and a given quality is refused.
pub fn resolve_headshot_quality(model: &str, quality: Option<String>) -> (r: Result<
    Option<String>,
    String,
>)
    ensures
        match headshot_quality(model@, opt_string_view(quality)) {
            Ok(Some(q)) => r matches Ok(Some(g)) && g@ == q,
            Ok(None) => r matches Ok(g) && g is None,
            Err(m) => r matches Err(e) && e@ == m,
        },
{
    if quality_supported(model) {
        Ok(
            Some(
                match quality {
                    Some(q) => q,
                    None => owned(DEFAULT_HEADSHOT_QUALITY),
                },
            ),
        )
    } else {
        let q = crate::text::opt_as_str(&quality);
        ensure_quality_supported(model, q)?;
        Ok(None)
    }
}

/// Law: with accepted widths and a known gravity, the resized image lies wholly
/// inside the padded canvas, whose height is the resized height: the letterbox
/// never crops, it only adds white at the sides.
pub proof fn law_letterbox_never_crops(
    gravity: Seq<char>,
    content_width: u32,
    canvas_width: u32,
    height: u32,
)
    requires
        pad_widths_error(content_width, canvas_width) is None,
        gravity_anchor(gravity_key(gravity)) is Some,
    ensures
        ({
            let (h, v) = gravity_anchor(gravity_key(gravity))->0;
            &&& axis_offset(h, canvas_width, content_width) + content_width <= canvas_width
            &&& axis_offset(v, height, height) == 0
        }),
{
}

/// Law: a normalised pronoun is always one of `his`, `her`, `their`.
pub proof fn law_pronoun_is_possessive(raw: Option<Seq<char>>)
    requires
        pronoun_for(pronoun_key(raw)) is Some,
    ensures
        ({
            let p = pronoun_for(pronoun_key(raw))->0;
            p == "his"@ || p == "her"@ || p == "their"@
        }),
{
}

/// A lower-case word without white space is its own normalised key.
proof fn lemma_plain_word_key(p: Seq<char>)
    requires
        p.len() > 0,
        forall|i: int| 0 <= i < p.len() ==> 'a' <= #[trigger] p[i] && p[i] <= 'z',
    ensures
        pronoun_key(Some(p)) == p,
{
    assert(!is_ws(p[0]));
    assert(trim_start(p) == p);
    assert(!is_ws(p.last()));
    assert(trim_end(p) == p);
    assert(ascii_lower(p) =~= p);
}

/// Law: normalising a normalised pronoun gives it back unchanged.
pub proof fn law_pronoun_normalization_idempotent(raw: Option<Seq<char>>)
    requires
        pronoun_for(pronoun_key(raw)) is Some,
    ensures
        pronoun_for(pronoun_key(Some(pronoun_for(pronoun_key(raw))->0))) == pronoun_for(
            pronoun_key(raw),
        ),
{
    reveal_strlit("his");
    reveal_strlit("her");
    reveal_strlit("their");
    let p = pronoun_for(pronoun_key(raw))->0;
    lemma_plain_word_key(p);
}

} // verus!
