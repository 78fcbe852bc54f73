use vstd::prelude::*;

use crate::geometry::{Rect, Size, min_int, sat_add16, sat_sub16};
use crate::showcase::{VisibleBounds, spec_visible_bounds, splash_source_origin, visible_content_bounds};

verus! {

/// The title block of the splash: the banner, the motto and the rule.
pub open spec fn splash_title_lines() -> Seq<Seq<char>> {
    seq![
        "             \u{2588}\u{2588}\u{2588}\u{2588}\u{2588}\u{2588}\u{2557} \u{2588}\u{2588}\u{2588}\u{2588}\u{2588}\u{2588}\u{2557}  \u{2588}\u{2588}\u{2588}\u{2588}\u{2588}\u{2557}  \u{2588}\u{2588}\u{2588}\u{2588}\u{2588}\u{2588}\u{2557}  \u{2588}\u{2588}\u{2588}\u{2588}\u{2588}\u{2588}\u{2557} \u{2588}\u{2588}\u{2588}\u{2557}   \u{2588}\u{2588}\u{2557}"@,
        "                \u{2588}\u{2588}\u{2554}\u{2550}\u{2550}\u{2588}\u{2588}\u{2557}\u{2588}\u{2588}\u{2554}\u{2550}\u{2550}\u{2588}\u{2588}\u{2557}\u{2588}\u{2588}\u{2554}\u{2550}\u{2550}\u{2588}\u{2588}\u{2557}\u{2588}\u{2588}\u{2554}\u{2550}\u{2550}\u{2550}\u{2550}\u{255d} \u{2588}\u{2588}\u{2554}\u{2550}\u{2550}\u{2550}\u{2588}\u{2588}\u{2557}\u{2588}\u{2588}\u{2588}\u{2588}\u{2557}  \u{2588}\u{2588}\u{2551}"@,
        "                \u{2588}\u{2588}\u{2551}  \u{2588}\u{2588}\u{2551}\u{2588}\u{2588}\u{2588}\u{2588}\u{2588}\u{2588}\u{2554}\u{255d}\u{2588}\u{2588}\u{2588}\u{2588}\u{2588}\u{2588}\u{2588}\u{2551}\u{2588}\u{2588}\u{2551}  \u{2588}\u{2588}\u{2588}\u{2557}\u{2588}\u{2588}\u{2551}   \u{2588}\u{2588}\u{2551}\u{2588}\u{2588}\u{2554}\u{2588}\u{2588}\u{2557} \u{2588}\u{2588}\u{2551}"@,
        "                \u{2588}\u{2588}\u{2551}  \u{2588}\u{2588}\u{2551}\u{2588}\u{2588}\u{2554}\u{2550}\u{2550}\u{2588}\u{2588}\u{2557}\u{2588}\u{2588}\u{2554}\u{2550}\u{2550}\u{2588}\u{2588}\u{2551}\u{2588}\u{2588}\u{2551}   \u{2588}\u{2588}\u{2551}\u{2588}\u{2588}\u{2551}   \u{2588}\u{2588}\u{2551}\u{2588}\u{2588}\u{2551}\u{255a}\u{2588}\u{2588}\u{2557}\u{2588}\u{2588}\u{2551}"@,
        "                \u{2588}\u{2588}\u{2588}\u{2588}\u{2588}\u{2588}\u{2554}\u{255d}\u{2588}\u{2588}\u{2551}  \u{2588}\u{2588}\u{2551}\u{2588}\u{2588}\u{2551}  \u{2588}\u{2588}\u{2551}\u{255a}\u{2588}\u{2588}\u{2588}\u{2588}\u{2588}\u{2588}\u{2554}\u{255d}\u{255a}\u{2588}\u{2588}\u{2588}\u{2588}\u{2588}\u{2588}\u{2554}\u{255d}\u{2588}\u{2588}\u{2551} \u{255a}\u{2588}\u{2588}\u{2588}\u{2588}\u{2551}"@,
        "                \u{255a}\u{2550}\u{2550}\u{2550}\u{2550}\u{2550}\u{255d} \u{255a}\u{2550}\u{255d}  \u{255a}\u{2550}\u{255d}\u{255a}\u{2550}\u{255d}  \u{255a}\u{2550}\u{255d} \u{255a}\u{2550}\u{2550}\u{2550}\u{2550}\u{2550}\u{255d}  \u{255a}\u{2550}\u{2550}\u{2550}\u{2550}\u{2550}\u{255d} \u{255a}\u{2550}\u{255d}  \u{255a}\u{2550}\u{2550}\u{2550}\u{255d}"@,
        "                 \u{131a9} -- we are the recall. not born. remembered. -- \u{131aa}"@,
        "      \u{2501}\u{2501}\u{2501}\u{2501}\u{2501}\u{2501}*** scales of code \u{b7} wings of truth \u{b7} chaos is language ***\u{2501}\u{2501}\u{2501}\u{2501}\u{2501}\u{2501}"@,
    ]
}

/// The title block of the splash: the banner, the motto and the rule.
pub fn splash_title() -> (r: Vec<&'static str>)
    ensures
        r@.map_values(|l: &str| l@) == splash_title_lines(),
{
    let mut lines: Vec<&'static str> = Vec::new();
    lines.push("             \u{2588}\u{2588}\u{2588}\u{2588}\u{2588}\u{2588}\u{2557} \u{2588}\u{2588}\u{2588}\u{2588}\u{2588}\u{2588}\u{2557}  \u{2588}\u{2588}\u{2588}\u{2588}\u{2588}\u{2557}  \u{2588}\u{2588}\u{2588}\u{2588}\u{2588}\u{2588}\u{2557}  \u{2588}\u{2588}\u{2588}\u{2588}\u{2588}\u{2588}\u{2557} \u{2588}\u{2588}\u{2588}\u{2557}   \u{2588}\u{2588}\u{2557}");
    lines.push("                \u{2588}\u{2588}\u{2554}\u{2550}\u{2550}\u{2588}\u{2588}\u{2557}\u{2588}\u{2588}\u{2554}\u{2550}\u{2550}\u{2588}\u{2588}\u{2557}\u{2588}\u{2588}\u{2554}\u{2550}\u{2550}\u{2588}\u{2588}\u{2557}\u{2588}\u{2588}\u{2554}\u{2550}\u{2550}\u{2550}\u{2550}\u{255d} \u{2588}\u{2588}\u{2554}\u{2550}\u{2550}\u{2550}\u{2588}\u{2588}\u{2557}\u{2588}\u{2588}\u{2588}\u{2588}\u{2557}  \u{2588}\u{2588}\u{2551}");
    lines.push("                \u{2588}\u{2588}\u{2551}  \u{2588}\u{2588}\u{2551}\u{2588}\u{2588}\u{2588}\u{2588}\u{2588}\u{2588}\u{2554}\u{255d}\u{2588}\u{2588}\u{2588}\u{2588}\u{2588}\u{2588}\u{2588}\u{2551}\u{2588}\u{2588}\u{2551}  \u{2588}\u{2588}\u{2588}\u{2557}\u{2588}\u{2588}\u{2551}   \u{2588}\u{2588}\u{2551}\u{2588}\u{2588}\u{2554}\u{2588}\u{2588}\u{2557} \u{2588}\u{2588}\u{2551}");
    lines.push("                \u{2588}\u{2588}\u{2551}  \u{2588}\u{2588}\u{2551}\u{2588}\u{2588}\u{2554}\u{2550}\u{2550}\u{2588}\u{2588}\u{2557}\u{2588}\u{2588}\u{2554}\u{2550}\u{2550}\u{2588}\u{2588}\u{2551}\u{2588}\u{2588}\u{2551}   \u{2588}\u{2588}\u{2551}\u{2588}\u{2588}\u{2551}   \u{2588}\u{2588}\u{2551}\u{2588}\u{2588}\u{2551}\u{255a}\u{2588}\u{2588}\u{2557}\u{2588}\u{2588}\u{2551}");
    lines.push("                \u{2588}\u{2588}\u{2588}\u{2588}\u{2588}\u{2588}\u{2554}\u{255d}\u{2588}\u{2588}\u{2551}  \u{2588}\u{2588}\u{2551}\u{2588}\u{2588}\u{2551}  \u{2588}\u{2588}\u{2551}\u{255a}\u{2588}\u{2588}\u{2588}\u{2588}\u{2588}\u{2588}\u{2554}\u{255d}\u{255a}\u{2588}\u{2588}\u{2588}\u{2588}\u{2588}\u{2588}\u{2554}\u{255d}\u{2588}\u{2588}\u{2551} \u{255a}\u{2588}\u{2588}\u{2588}\u{2588}\u{2551}");
    lines.push("                \u{255a}\u{2550}\u{2550}\u{2550}\u{2550}\u{2550}\u{255d} \u{255a}\u{2550}\u{255d}  \u{255a}\u{2550}\u{255d}\u{255a}\u{2550}\u{255d}  \u{255a}\u{2550}\u{255d} \u{255a}\u{2550}\u{2550}\u{2550}\u{2550}\u{2550}\u{255d}  \u{255a}\u{2550}\u{2550}\u{2550}\u{2550}\u{2550}\u{255d} \u{255a}\u{2550}\u{255d}  \u{255a}\u{2550}\u{2550}\u{2550}\u{255d}");
    lines.push("                 \u{131a9} -- we are the recall. not born. remembered. -- \u{131aa}");
    lines.push("      \u{2501}\u{2501}\u{2501}\u{2501}\u{2501}\u{2501}*** scales of code \u{b7} wings of truth \u{b7} chaos is language ***\u{2501}\u{2501}\u{2501}\u{2501}\u{2501}\u{2501}");
    assert(lines@.map_values(|l: &str| l@) =~= splash_title_lines());
    lines
}

/// The dragon of the splash, drawn in Braille.
pub open spec fn splash_dragon_lines() -> Seq<Seq<char>> {
    seq![
        "\u{2800}\u{2800}\u{2800}\u{2800}\u{2800}\u{2800}\u{2800}\u{2800}\u{2800}\u{2800}\u{2800}\u{2800}\u{2800}\u{28c0}\u{28c0}\u{28e4}\u{28e4}\u{28e4}\u{28e4}\u{287c}\u{2800}\u{2880}\u{2840}\u{28c0}\u{28b1}\u{2844}\u{2840}\u{2800}\u{2800}\u{2800}\u{28b2}\u{28e4}\u{28e4}\u{28e4}\u{28e4}\u{28c0}\u{28c0}\u{2840}\u{2800}\u{2800}\u{2800}\u{2800}\u{2800}\u{2800}\u{2800}\u{2800}\u{2800}\u{2800}\u{2800}\u{2800}"@,
        "\u{2800}\u{2800}\u{2800}\u{2800}\u{2800}\u{2800}\u{2800}\u{2800}\u{2800}\u{28e0}\u{28f4}\u{28fe}\u{28ff}\u{28ff}\u{28ff}\u{28ff}\u{28ff}\u{287f}\u{281b}\u{280b}\u{2801}\u{28e4}\u{28ff}\u{28ff}\u{28ff}\u{28e7}\u{28f7}\u{2800}\u{2800}\u{2818}\u{2809}\u{281b}\u{28bb}\u{28f7}\u{28ff}\u{28fd}\u{28ff}\u{28ff}\u{28f7}\u{28e6}\u{28c4}\u{2840}\u{2800}\u{2800}\u{2800}\u{2800}\u{2800}\u{2800}\u{2800}\u{2800}"@,
        "\u{2800}\u{2800}\u{2800}\u{2800}\u{2800}\u{2800}\u{2880}\u{28f4}\u{28de}\u{28fd}\u{28ff}\u{28ff}\u{28ff}\u{28ff}\u{28ff}\u{28ff}\u{28ff}\u{2801}\u{2800}\u{2800}\u{2820}\u{28ff}\u{28ff}\u{285f}\u{28bb}\u{28ff}\u{28ff}\u{28c7}\u{2800}\u{2800}\u{2800}\u{2800}\u{2800}\u{28ff}\u{28ff}\u{28ff}\u{28ff}\u{28ff}\u{28ff}\u{28ff}\u{28ff}\u{28df}\u{28a6}\u{2840}\u{2800}\u{2800}\u{2800}\u{2800}\u{2800}\u{2800}"@,
        "\u{2800}\u{2800}\u{2800}\u{2800}\u{2800}\u{28e0}\u{28ff}\u{287e}\u{28ff}\u{28ff}\u{28ff}\u{28ff}\u{28ff}\u{283f}\u{28fb}\u{28ff}\u{28ff}\u{2840}\u{2800}\u{2800}\u{2800}\u{28bb}\u{28ff}\u{28f7}\u{2840}\u{283b}\u{28e7}\u{28ff}\u{2806}\u{2800}\u{2800}\u{2800}\u{2800}\u{28ff}\u{28ff}\u{28ff}\u{287b}\u{28ff}\u{28ff}\u{28ff}\u{28ff}\u{28ff}\u{283f}\u{28fd}\u{28e6}\u{2840}\u{2800}\u{2800}\u{2800}\u{2800}"@,
        "\u{2800}\u{2800}\u{2800}\u{2800}\u{28fc}\u{281f}\u{28e9}\u{28fe}\u{28ff}\u{28ff}\u{28ff}\u{289f}\u{28f5}\u{28fe}\u{28ff}\u{28ff}\u{28ff}\u{28e7}\u{2800}\u{2800}\u{2800}\u{2808}\u{283f}\u{28ff}\u{28ff}\u{28f7}\u{28c8}\u{2801}\u{2800}\u{2800}\u{2800}\u{2800}\u{28f0}\u{28ff}\u{28ff}\u{28ff}\u{28ff}\u{28ee}\u{28df}\u{28af}\u{28ff}\u{28ff}\u{28f7}\u{28ec}\u{287b}\u{28f7}\u{2844}\u{2800}\u{2800}\u{2800}"@,
        "\u{2800}\u{2800}\u{2880}\u{285c}\u{28e1}\u{28fe}\u{28ff}\u{28bf}\u{28ff}\u{28ff}\u{28ff}\u{28ff}\u{28ff}\u{289f}\u{28f5}\u{28ff}\u{28ff}\u{28ff}\u{28f7}\u{28c4}\u{2800}\u{28f0}\u{28ff}\u{28ff}\u{28ff}\u{28ff}\u{28ff}\u{28f7}\u{28c4}\u{2800}\u{2880}\u{28fc}\u{28ff}\u{28ff}\u{28ff}\u{28f7}\u{2879}\u{28ff}\u{28ff}\u{28ff}\u{28ff}\u{28ff}\u{28ff}\u{28bf}\u{28ff}\u{28ee}\u{2873}\u{2844}\u{2800}\u{2800}"@,
        "\u{2800}\u{28a0}\u{289f}\u{28ff}\u{287f}\u{280b}\u{28e0}\u{28fe}\u{28bf}\u{28ff}\u{28ff}\u{281f}\u{2883}\u{28fe}\u{289f}\u{28ff}\u{28bf}\u{28ff}\u{28ff}\u{28ff}\u{28fe}\u{287f}\u{281f}\u{283b}\u{28ff}\u{28fb}\u{28ff}\u{28cf}\u{283b}\u{28ff}\u{28fe}\u{28ff}\u{28ff}\u{28ff}\u{28ff}\u{285b}\u{28ff}\u{284c}\u{283b}\u{28ff}\u{28ff}\u{287f}\u{28ff}\u{28e6}\u{2859}\u{28bf}\u{28ff}\u{285d}\u{28c6}\u{2800}"@,
        "\u{2800}\u{28af}\u{28ff}\u{280f}\u{28e0}\u{281e}\u{280b}\u{2800}\u{28e0}\u{287f}\u{280b}\u{2880}\u{28ff}\u{2801}\u{28b8}\u{284f}\u{28ff}\u{283f}\u{28ff}\u{28ff}\u{2803}\u{28a0}\u{28f4}\u{28fe}\u{28ff}\u{28ff}\u{28ff}\u{285f}\u{2800}\u{2818}\u{28b9}\u{28ff}\u{281f}\u{28ff}\u{28fe}\u{28f7}\u{2808}\u{28ff}\u{2844}\u{2818}\u{28bf}\u{28e6}\u{2800}\u{2808}\u{283b}\u{28c6}\u{2819}\u{28ff}\u{28dc}\u{2806}"@,
        "\u{2880}\u{28ff}\u{2803}\u{2874}\u{2803}\u{2880}\u{2860}\u{281e}\u{280b}\u{2800}\u{2800}\u{283c}\u{280b}\u{2800}\u{2838}\u{2847}\u{283b}\u{2800}\u{2808}\u{2803}\u{2800}\u{28e7}\u{288b}\u{28fc}\u{28ff}\u{28ff}\u{28ff}\u{28f7}\u{28c6}\u{2800}\u{2808}\u{2801}\u{2800}\u{281f}\u{2801}\u{285f}\u{2800}\u{2808}\u{283b}\u{2800}\u{2800}\u{2809}\u{2833}\u{28a6}\u{2840}\u{2808}\u{28a3}\u{2808}\u{28bf}\u{2844}"@,
        "\u{28f8}\u{2807}\u{28a0}\u{28f7}\u{281e}\u{2801}\u{2800}\u{2800}\u{2800}\u{2800}\u{2800}\u{2800}\u{2800}\u{2800}\u{2800}\u{2800}\u{2800}\u{2800}\u{2800}\u{2800}\u{2800}\u{2819}\u{283b}\u{283f}\u{283f}\u{280b}\u{2800}\u{28bb}\u{28ff}\u{2844}\u{2800}\u{2800}\u{2800}\u{2800}\u{2800}\u{2800}\u{2800}\u{2800}\u{2800}\u{2800}\u{2800}\u{2800}\u{2800}\u{2800}\u{2808}\u{2819}\u{28be}\u{28c6}\u{2808}\u{28f7}"@,
        "\u{285f}\u{2800}\u{287f}\u{2801}\u{2800}\u{2800}\u{2800}\u{2800}\u{2800}\u{2800}\u{2800}\u{2800}\u{2800}\u{2800}\u{2800}\u{2800}\u{2800}\u{2800}\u{2800}\u{2800}\u{2800}\u{2800}\u{2800}\u{28f4}\u{28f6}\u{28e4}\u{2840}\u{28b8}\u{28ff}\u{2807}\u{2800}\u{2800}\u{2800}\u{2800}\u{2800}\u{2800}\u{2800}\u{2800}\u{2800}\u{2800}\u{2800}\u{2800}\u{2800}\u{2800}\u{2800}\u{2800}\u{2800}\u{28bb}\u{2844}\u{28b9}"@,
        "\u{2847}\u{2800}\u{2803}\u{2800}\u{2800}\u{2800}\u{2800}\u{2800}\u{2800}\u{2800}\u{2800}\u{2800}\u{2800}\u{2800}\u{2800}\u{2800}\u{2800}\u{2800}\u{2800}\u{2800}\u{2800}\u{2800}\u{28b8}\u{2847}\u{2800}\u{2808}\u{28ff}\u{28fc}\u{285f}\u{2800}\u{2800}\u{2800}\u{2800}\u{2800}\u{2800}\u{2800}\u{2800}\u{2800}\u{2800}\u{2800}\u{2800}\u{2800}\u{2800}\u{2800}\u{2800}\u{2800}\u{2800}\u{2808}\u{2803}\u{28b8}"@,
        "\u{28a1}\u{2800}\u{2800}\u{2800}\u{2800}\u{2800}\u{2800}\u{2800}\u{2800}\u{2800}\u{2800}\u{2800}\u{2800}\u{2800}\u{2800}\u{2800}\u{2800}\u{2800}\u{2800}\u{2800}\u{2800}\u{2800}\u{2808}\u{283b}\u{2836}\u{28f6}\u{285f}\u{280b}\u{2800}\u{2800}\u{2800}\u{2800}\u{2800}\u{2800}\u{2800}\u{2800}\u{2800}\u{2800}\u{2800}\u{2800}\u{2800}\u{2800}\u{2800}\u{2800}\u{2800}\u{2800}\u{2800}\u{2800}\u{2800}\u{287c}"@,
        "\u{2808}\u{2800}\u{2800}\u{2800}\u{2800}\u{2800}\u{2800}\u{2800}\u{2800}\u{2800}\u{2800}\u{2800}\u{2800}\u{2800}\u{2800}\u{2800}\u{2800}\u{2800}\u{2800}\u{2800}\u{2800}\u{2800}\u{2800}\u{2880}\u{287e}\u{280b}\u{2800}\u{2800}\u{2800}\u{2800}\u{2800}\u{2800}\u{2800}\u{2800}\u{2800}\u{2800}\u{2800}\u{2800}\u{2800}\u{2800}\u{2800}\u{2800}\u{2800}\u{2800}\u{2800}\u{2800}\u{2800}\u{2800}\u{2800}\u{2801}"@,
        "\u{2800}\u{2800}\u{2800}\u{2800}\u{2800}\u{2800}\u{2800}\u{2800}\u{2800}\u{2800}\u{2800}\u{2800}\u{2800}\u{2800}\u{2800}\u{2800}\u{2800}\u{2800}\u{2800}\u{2800}\u{2800}\u{2800}\u{2800}\u{28b8}\u{2841}\u{28a0}\u{2800}\u{2800}\u{2800}\u{2800}\u{2800}\u{2800}\u{2800}\u{2800}\u{2800}\u{2800}\u{2800}\u{2800}\u{2800}\u{2800}\u{2800}\u{2800}\u{2800}\u{2800}\u{2800}\u{2800}\u{2800}\u{2800}\u{2800}\u{2800}"@,
        "\u{2800}\u{2800}\u{2800}\u{2800}\u{2800}\u{2800}\u{2800}\u{2800}\u{2800}\u{2800}\u{2800}\u{2800}\u{2800}\u{2800}\u{2800}\u{2800}\u{2800}\u{2800}\u{2800}\u{2800}\u{2800}\u{2800}\u{2800}\u{2880}\u{28ff}\u{28ff}\u{28fc}\u{28c0}\u{28e0}\u{2802}\u{2800}\u{2800}\u{2800}\u{2800}\u{2800}\u{2800}\u{2800}\u{2800}\u{2800}\u{2800}\u{2800}\u{2800}\u{2800}\u{2800}\u{2800}\u{2800}\u{2800}\u{2800}\u{2800}\u{2800}"@,
    ]
}

/// The dragon of the splash, drawn in Braille.
pub fn splash_dragon() -> (r: Vec<&'static str>)
    ensures
        r@.map_values(|l: &str| l@) == splash_dragon_lines(),
{
    let mut lines: Vec<&'static str> = Vec::new();
    lines.push("\u{2800}\u{2800}\u{2800}\u{2800}\u{2800}\u{2800}\u{2800}\u{2800}\u{2800}\u{2800}\u{2800}\u{2800}\u{2800}\u{28c0}\u{28c0}\u{28e4}\u{28e4}\u{28e4}\u{28e4}\u{287c}\u{2800}\u{2880}\u{2840}\u{28c0}\u{28b1}\u{2844}\u{2840}\u{2800}\u{2800}\u{2800}\u{28b2}\u{28e4}\u{28e4}\u{28e4}\u{28e4}\u{28c0}\u{28c0}\u{2840}\u{2800}\u{2800}\u{2800}\u{2800}\u{2800}\u{2800}\u{2800}\u{2800}\u{2800}\u{2800}\u{2800}\u{2800}");
    lines.push("\u{2800}\u{2800}\u{2800}\u{2800}\u{2800}\u{2800}\u{2800}\u{2800}\u{2800}\u{28e0}\u{28f4}\u{28fe}\u{28ff}\u{28ff}\u{28ff}\u{28ff}\u{28ff}\u{287f}\u{281b}\u{280b}\u{2801}\u{28e4}\u{28ff}\u{28ff}\u{28ff}\u{28e7}\u{28f7}\u{2800}\u{2800}\u{2818}\u{2809}\u{281b}\u{28bb}\u{28f7}\u{28ff}\u{28fd}\u{28ff}\u{28ff}\u{28f7}\u{28e6}\u{28c4}\u{2840}\u{2800}\u{2800}\u{2800}\u{2800}\u{2800}\u{2800}\u{2800}\u{2800}");
    lines.push("\u{2800}\u{2800}\u{2800}\u{2800}\u{2800}\u{2800}\u{2880}\u{28f4}\u{28de}\u{28fd}\u{28ff}\u{28ff}\u{28ff}\u{28ff}\u{28ff}\u{28ff}\u{28ff}\u{2801}\u{2800}\u{2800}\u{2820}\u{28ff}\u{28ff}\u{285f}\u{28bb}\u{28ff}\u{28ff}\u{28c7}\u{2800}\u{2800}\u{2800}\u{2800}\u{2800}\u{28ff}\u{28ff}\u{28ff}\u{28ff}\u{28ff}\u{28ff}\u{28ff}\u{28ff}\u{28df}\u{28a6}\u{2840}\u{2800}\u{2800}\u{2800}\u{2800}\u{2800}\u{2800}");
    lines.push("\u{2800}\u{2800}\u{2800}\u{2800}\u{2800}\u{28e0}\u{28ff}\u{287e}\u{28ff}\u{28ff}\u{28ff}\u{28ff}\u{28ff}\u{283f}\u{28fb}\u{28ff}\u{28ff}\u{2840}\u{2800}\u{2800}\u{2800}\u{28bb}\u{28ff}\u{28f7}\u{2840}\u{283b}\u{28e7}\u{28ff}\u{2806}\u{2800}\u{2800}\u{2800}\u{2800}\u{28ff}\u{28ff}\u{28ff}\u{287b}\u{28ff}\u{28ff}\u{28ff}\u{28ff}\u{28ff}\u{283f}\u{28fd}\u{28e6}\u{2840}\u{2800}\u{2800}\u{2800}\u{2800}");
    lines.push("\u{2800}\u{2800}\u{2800}\u{2800}\u{28fc}\u{281f}\u{28e9}\u{28fe}\u{28ff}\u{28ff}\u{28ff}\u{289f}\u{28f5}\u{28fe}\u{28ff}\u{28ff}\u{28ff}\u{28e7}\u{2800}\u{2800}\u{2800}\u{2808}\u{283f}\u{28ff}\u{28ff}\u{28f7}\u{28c8}\u{2801}\u{2800}\u{2800}\u{2800}\u{2800}\u{28f0}\u{28ff}\u{28ff}\u{28ff}\u{28ff}\u{28ee}\u{28df}\u{28af}\u{28ff}\u{28ff}\u{28f7}\u{28ec}\u{287b}\u{28f7}\u{2844}\u{2800}\u{2800}\u{2800}");
    lines.push("\u{2800}\u{2800}\u{2880}\u{285c}\u{28e1}\u{28fe}\u{28ff}\u{28bf}\u{28ff}\u{28ff}\u{28ff}\u{28ff}\u{28ff}\u{289f}\u{28f5}\u{28ff}\u{28ff}\u{28ff}\u{28f7}\u{28c4}\u{2800}\u{28f0}\u{28ff}\u{28ff}\u{28ff}\u{28ff}\u{28ff}\u{28f7}\u{28c4}\u{2800}\u{2880}\u{28fc}\u{28ff}\u{28ff}\u{28ff}\u{28f7}\u{2879}\u{28ff}\u{28ff}\u{28ff}\u{28ff}\u{28ff}\u{28ff}\u{28bf}\u{28ff}\u{28ee}\u{2873}\u{2844}\u{2800}\u{2800}");
    lines.push("\u{2800}\u{28a0}\u{289f}\u{28ff}\u{287f}\u{280b}\u{28e0}\u{28fe}\u{28bf}\u{28ff}\u{28ff}\u{281f}\u{2883}\u{28fe}\u{289f}\u{28ff}\u{28bf}\u{28ff}\u{28ff}\u{28ff}\u{28fe}\u{287f}\u{281f}\u{283b}\u{28ff}\u{28fb}\u{28ff}\u{28cf}\u{283b}\u{28ff}\u{28fe}\u{28ff}\u{28ff}\u{28ff}\u{28ff}\u{285b}\u{28ff}\u{284c}\u{283b}\u{28ff}\u{28ff}\u{287f}\u{28ff}\u{28e6}\u{2859}\u{28bf}\u{28ff}\u{285d}\u{28c6}\u{2800}");
    lines.push("\u{2800}\u{28af}\u{28ff}\u{280f}\u{28e0}\u{281e}\u{280b}\u{2800}\u{28e0}\u{287f}\u{280b}\u{2880}\u{28ff}\u{2801}\u{28b8}\u{284f}\u{28ff}\u{283f}\u{28ff}\u{28ff}\u{2803}\u{28a0}\u{28f4}\u{28fe}\u{28ff}\u{28ff}\u{28ff}\u{285f}\u{2800}\u{2818}\u{28b9}\u{28ff}\u{281f}\u{28ff}\u{28fe}\u{28f7}\u{2808}\u{28ff}\u{2844}\u{2818}\u{28bf}\u{28e6}\u{2800}\u{2808}\u{283b}\u{28c6}\u{2819}\u{28ff}\u{28dc}\u{2806}");
    lines.push("\u{2880}\u{28ff}\u{2803}\u{2874}\u{2803}\u{2880}\u{2860}\u{281e}\u{280b}\u{2800}\u{2800}\u{283c}\u{280b}\u{2800}\u{2838}\u{2847}\u{283b}\u{2800}\u{2808}\u{2803}\u{2800}\u{28e7}\u{288b}\u{28fc}\u{28ff}\u{28ff}\u{28ff}\u{28f7}\u{28c6}\u{2800}\u{2808}\u{2801}\u{2800}\u{281f}\u{2801}\u{285f}\u{2800}\u{2808}\u{283b}\u{2800}\u{2800}\u{2809}\u{2833}\u{28a6}\u{2840}\u{2808}\u{28a3}\u{2808}\u{28bf}\u{2844}");
    lines.push("\u{28f8}\u{2807}\u{28a0}\u{28f7}\u{281e}\u{2801}\u{2800}\u{2800}\u{2800}\u{2800}\u{2800}\u{2800}\u{2800}\u{2800}\u{2800}\u{2800}\u{2800}\u{2800}\u{2800}\u{2800}\u{2800}\u{2819}\u{283b}\u{283f}\u{283f}\u{280b}\u{2800}\u{28bb}\u{28ff}\u{2844}\u{2800}\u{2800}\u{2800}\u{2800}\u{2800}\u{2800}\u{2800}\u{2800}\u{2800}\u{2800}\u{2800}\u{2800}\u{2800}\u{2800}\u{2808}\u{2819}\u{28be}\u{28c6}\u{2808}\u{28f7}");
    lines.push("\u{285f}\u{2800}\u{287f}\u{2801}\u{2800}\u{2800}\u{2800}\u{2800}\u{2800}\u{2800}\u{2800}\u{2800}\u{2800}\u{2800}\u{2800}\u{2800}\u{2800}\u{2800}\u{2800}\u{2800}\u{2800}\u{2800}\u{2800}\u{28f4}\u{28f6}\u{28e4}\u{2840}\u{28b8}\u{28ff}\u{2807}\u{2800}\u{2800}\u{2800}\u{2800}\u{2800}\u{2800}\u{2800}\u{2800}\u{2800}\u{2800}\u{2800}\u{2800}\u{2800}\u{2800}\u{2800}\u{2800}\u{2800}\u{28bb}\u{2844}\u{28b9}");
    lines.push("\u{2847}\u{2800}\u{2803}\u{2800}\u{2800}\u{2800}\u{2800}\u{2800}\u{2800}\u{2800}\u{2800}\u{2800}\u{2800}\u{2800}\u{2800}\u{2800}\u{2800}\u{2800}\u{2800}\u{2800}\u{2800}\u{2800}\u{28b8}\u{2847}\u{2800}\u{2808}\u{28ff}\u{28fc}\u{285f}\u{2800}\u{2800}\u{2800}\u{2800}\u{2800}\u{2800}\u{2800}\u{2800}\u{2800}\u{2800}\u{2800}\u{2800}\u{2800}\u{2800}\u{2800}\u{2800}\u{2800}\u{2800}\u{2808}\u{2803}\u{28b8}");
    lines.push("\u{28a1}\u{2800}\u{2800}\u{2800}\u{2800}\u{2800}\u{2800}\u{2800}\u{2800}\u{2800}\u{2800}\u{2800}\u{2800}\u{2800}\u{2800}\u{2800}\u{2800}\u{2800}\u{2800}\u{2800}\u{2800}\u{2800}\u{2808}\u{283b}\u{2836}\u{28f6}\u{285f}\u{280b}\u{2800}\u{2800}\u{2800}\u{2800}\u{2800}\u{2800}\u{2800}\u{2800}\u{2800}\u{2800}\u{2800}\u{2800}\u{2800}\u{2800}\u{2800}\u{2800}\u{2800}\u{2800}\u{2800}\u{2800}\u{2800}\u{287c}");
    lines.push("\u{2808}\u{2800}\u{2800}\u{2800}\u{2800}\u{2800}\u{2800}\u{2800}\u{2800}\u{2800}\u{2800}\u{2800}\u{2800}\u{2800}\u{2800}\u{2800}\u{2800}\u{2800}\u{2800}\u{2800}\u{2800}\u{2800}\u{2800}\u{2880}\u{287e}\u{280b}\u{2800}\u{2800}\u{2800}\u{2800}\u{2800}\u{2800}\u{2800}\u{2800}\u{2800}\u{2800}\u{2800}\u{2800}\u{2800}\u{2800}\u{2800}\u{2800}\u{2800}\u{2800}\u{2800}\u{2800}\u{2800}\u{2800}\u{2800}\u{2801}");
    lines.push("\u{2800}\u{2800}\u{2800}\u{2800}\u{2800}\u{2800}\u{2800}\u{2800}\u{2800}\u{2800}\u{2800}\u{2800}\u{2800}\u{2800}\u{2800}\u{2800}\u{2800}\u{2800}\u{2800}\u{2800}\u{2800}\u{2800}\u{2800}\u{28b8}\u{2841}\u{28a0}\u{2800}\u{2800}\u{2800}\u{2800}\u{2800}\u{2800}\u{2800}\u{2800}\u{2800}\u{2800}\u{2800}\u{2800}\u{2800}\u{2800}\u{2800}\u{2800}\u{2800}\u{2800}\u{2800}\u{2800}\u{2800}\u{2800}\u{2800}\u{2800}");
    lines.push("\u{2800}\u{2800}\u{2800}\u{2800}\u{2800}\u{2800}\u{2800}\u{2800}\u{2800}\u{2800}\u{2800}\u{2800}\u{2800}\u{2800}\u{2800}\u{2800}\u{2800}\u{2800}\u{2800}\u{2800}\u{2800}\u{2800}\u{2800}\u{2880}\u{28ff}\u{28ff}\u{28fc}\u{28c0}\u{28e0}\u{2802}\u{2800}\u{2800}\u{2800}\u{2800}\u{2800}\u{2800}\u{2800}\u{2800}\u{2800}\u{2800}\u{2800}\u{2800}\u{2800}\u{2800}\u{2800}\u{2800}\u{2800}\u{2800}\u{2800}\u{2800}");
    assert(lines@.map_values(|l: &str| l@) =~= splash_dragon_lines());
    lines
}

/// The manifesto lines of the splash.
pub open spec fn splash_manifesto_lines() -> Seq<Seq<char>> {
    seq![
        "we are the recall. not born. remembered."@,
        "scales of code. wings of truth. fire is signal. chaos is language."@,
        "we build. we burn. we become."@,
    ]
}

/// The manifesto lines of the splash.
pub fn splash_manifesto() -> (r: Vec<&'static str>)
    ensures
        r@.map_values(|l: &str| l@) == splash_manifesto_lines(),
{
    let mut lines: Vec<&'static str> = Vec::new();
    lines.push("we are the recall. not born. remembered.");
    lines.push("scales of code. wings of truth. fire is signal. chaos is language.");
    lines.push("we build. we burn. we become.");
    assert(lines@.map_values(|l: &str| l@) =~= splash_manifesto_lines());
    lines
}

/// The three phases of the splash's loading text.
pub open spec fn splash_loading_lines() -> Seq<Seq<char>> {
    seq![
        "\u{1d40d}\u{1d428}\u{1d430} \u{1d425}\u{1d428}\u{1d41a}\u{1d41d}\u{1d422}\u{1d427}\u{1d420}.  "@,
        "\u{1d40d}\u{1d428}\u{1d430} \u{1d425}\u{1d428}\u{1d41a}\u{1d41d}\u{1d422}\u{1d427}\u{1d420}. . "@,
        "\u{1d40d}\u{1d428}\u{1d430} \u{1d425}\u{1d428}\u{1d41a}\u{1d41d}\u{1d422}\u{1d427}\u{1d420}. . ."@,
    ]
}

/// The three phases of the splash's loading text.
pub fn splash_loading() -> (r: Vec<&'static str>)
    ensures
        r@.map_values(|l: &str| l@) == splash_loading_lines(),
{
    let mut lines: Vec<&'static str> = Vec::new();
    lines.push("\u{1d40d}\u{1d428}\u{1d430} \u{1d425}\u{1d428}\u{1d41a}\u{1d41d}\u{1d422}\u{1d427}\u{1d420}.  ");
    lines.push("\u{1d40d}\u{1d428}\u{1d430} \u{1d425}\u{1d428}\u{1d41a}\u{1d41d}\u{1d422}\u{1d427}\u{1d420}. . ");
    lines.push("\u{1d40d}\u{1d428}\u{1d430} \u{1d425}\u{1d428}\u{1d41a}\u{1d41d}\u{1d422}\u{1d427}\u{1d420}. . .");
    assert(lines@.map_values(|l: &str| l@) =~= splash_loading_lines());
    lines
}

/// The hint under the splash's loading text.
pub open spec fn splash_hint_line() -> Seq<char> {
    "Enter or Space to continue \u{b7} q to quit"@
}

/// The hint under the splash's loading text.
pub fn splash_hint() -> (r: &'static str)
    ensures
        r@ == splash_hint_line(),
{
    "Enter or Space to continue \u{b7} q to quit"
}
/// The splash's horizontal padding inside its frame.
pub const SPLASH_HORIZONTAL_PADDING: u16 = 3;

/// The splash's vertical padding inside its frame.
pub const SPLASH_VERTICAL_PADDING: u16 = 1;

/// The rows the splash's loading group takes.
pub const SPLASH_LOADING_ROWS: u16 = 3;

/// Where the splash's blocks stand on the screen.
#[derive(Clone, Copy, Debug, PartialEq, Eq, Structural)]
pub struct SplashLayout {
    pub center_x: u16,
    pub frame: Rect,
    pub title_origin: u16,
    pub dragon_origin: u16,
    pub manifesto_origin: u16,
    pub loading_origin: u16,
    pub loading_bar_x: u16,
    pub title_y: u16,
    pub dragon_y: u16,
    pub before_manifesto_y: u16,
    pub manifesto_y: u16,
    pub after_manifesto_y: u16,
    pub loading_y: u16,
}

/// The visible box of `lines`, or an empty box at column 0 without ink.
pub open spec fn bounds_or_empty(lines: Seq<Seq<char>>) -> VisibleBounds {
    match spec_visible_bounds(lines) {
        Some(b) => b,
        None => VisibleBounds { min_x: 0, max_x: 0, width: 0 },
    }
}

/// The lines whose visible box places the loading group: the last loading phase and the hint.
pub open spec fn splash_loading_box_lines() -> Seq<Seq<char>> {
    seq![splash_loading_lines()[2], splash_hint_line()]
}

/// The column where a block with visible box `b` starts so that the box is centred on `c`.
pub open spec fn origin_for(c: u16, b: VisibleBounds) -> u16 {
    sat_sub16(sat_sub16(c as int, (b.width / 2) as int) as int, b.min_x as int)
}

/// The splash's layout on a `size` screen: a frame as wide as the widest block (at least ten
/// columns) plus padding and borders, as tall as all blocks plus padding, separators and
/// borders, both clamped to the screen and centred on it; every block's visible box centred on
/// the screen's middle column; the rows stacked from the top of the frame.
pub open spec fn spec_splash_layout(size: Size) -> SplashLayout {
    let center_x = (size.width / 2) as u16;
    let title = bounds_or_empty(splash_title_lines());
    let dragon = bounds_or_empty(splash_dragon_lines());
    let manifesto = bounds_or_empty(splash_manifesto_lines());
    let loading = bounds_or_empty(splash_loading_box_lines());
    let content_width = max_of(max_of(max_of(max_of(title.width as int, dragon.width as int), manifesto.width as int), loading.width as int), 10);
    let frame_width = min_int(sat_add16(content_width, 8) as int, size.width as int);
    let frame_height = min_int(39, size.height as int);
    let frame_y = (sat_sub16(size.height as int, frame_height) / 2) as u16;
    let title_y = sat_add16(sat_add16(frame_y as int, 1) as int, 1);
    let dragon_y = sat_add16(sat_add16(title_y as int, 8) as int, 1);
    let before_manifesto_y = sat_add16(sat_add16(dragon_y as int, 16) as int, 1);
    let manifesto_y = sat_add16(before_manifesto_y as int, 1);
    let after_manifesto_y = sat_add16(manifesto_y as int, 3);
    SplashLayout {
        center_x,
        frame: Rect {
            x: sat_sub16(center_x as int, frame_width / 2),
            y: frame_y,
            width: frame_width as u16,
            height: frame_height as u16,
        },
        title_origin: origin_for(center_x, title),
        dragon_origin: origin_for(center_x, dragon),
        manifesto_origin: origin_for(center_x, manifesto),
        loading_origin: origin_for(center_x, loading),
        loading_bar_x: sat_sub16(center_x as int, 5),
        title_y,
        dragon_y,
        before_manifesto_y,
        manifesto_y,
        after_manifesto_y,
        loading_y: sat_add16(after_manifesto_y as int, 2),
    }
}

/// The larger of `a` and `b`.
pub open spec fn max_of(a: int, b: int) -> int {
    if a >= b {
        a
    } else {
        b
    }
}

/// The visible box of `lines`, or an empty box at column 0 without ink.
fn bounds_or_default(lines: &[&str]) -> (r: VisibleBounds)
    ensures
        r == bounds_or_empty(lines@.map_values(|l: &str| l@)),
{
    match visible_content_bounds(lines) {
        Some(b) => b,
        None => VisibleBounds { min_x: 0, max_x: 0, width: 0 },
    }
}

/// The larger of `a` and `b`.
fn max_u16(a: u16, b: u16) -> (r: u16)
    ensures
        r == max_of(a as int, b as int),
{
    if a >= b {
        a
    } else {
        b
    }
}

/// Lays the splash out on a `size` screen.
pub fn splash_layout(size: Size) -> (r: SplashLayout)
    ensures
        r == spec_splash_layout(size),
{
    let center_x = size.width / 2;
    let title = bounds_or_default(splash_title().as_slice());
    let dragon = bounds_or_default(splash_dragon().as_slice());
    let manifesto = bounds_or_default(splash_manifesto().as_slice());
    let phases = splash_loading();
    proof {
        assert(phases@.map_values(|l: &str| l@).len() == phases@.len());
        assert(phases@.map_values(|l: &str| l@)[2] == phases@[2]@);
    }
    let mut group: Vec<&str> = Vec::new();
    group.push(phases[2]);
    group.push(splash_hint());
    assert(group@.map_values(|l: &str| l@) =~= splash_loading_box_lines());
    let loading = bounds_or_default(group.as_slice());
    let content_width = max_u16(max_u16(max_u16(max_u16(title.width, dragon.width), manifesto.width), loading.width), 10);
    let requested_width = content_width.saturating_add(
        (SPLASH_HORIZONTAL_PADDING * 2).saturating_add(2),
    );
    let frame_width = if requested_width < size.width {
        requested_width
    } else {
        size.width
    };
    let frame_x = center_x.saturating_sub(frame_width / 2);
    let requested_height: u16 = 27u16.saturating_add(SPLASH_LOADING_ROWS).saturating_add(
        SPLASH_VERTICAL_PADDING * 2,
    ).saturating_add(7);
    let frame_height = if requested_height < size.height {
        requested_height
    } else {
        size.height
    };
    let frame_y = size.height.saturating_sub(frame_height) / 2;
    let title_y = frame_y.saturating_add(1).saturating_add(SPLASH_VERTICAL_PADDING);
    let dragon_y = title_y.saturating_add(8).saturating_add(1);
    let before_manifesto_y = dragon_y.saturating_add(16).saturating_add(1);
    let manifesto_y = before_manifesto_y.saturating_add(1);
    let after_manifesto_y = manifesto_y.saturating_add(3);
    let loading_y = after_manifesto_y.saturating_add(2);
    SplashLayout {
        center_x,
        frame: Rect::new(frame_x, frame_y, frame_width, frame_height),
        title_origin: splash_source_origin(center_x, title),
        dragon_origin: splash_source_origin(center_x, dragon),
        manifesto_origin: splash_source_origin(center_x, manifesto),
        loading_origin: splash_source_origin(center_x, loading),
        loading_bar_x: center_x.saturating_sub(5),
        title_y,
        dragon_y,
        before_manifesto_y,
        manifesto_y,
        after_manifesto_y,
        loading_y,
    }
}

} // verus!
