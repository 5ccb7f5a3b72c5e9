//! The style of the window.
use vstd::arithmetic::power2::*;
use vstd::prelude::*;
use vstd::string::*;

use crate::app_config::AppConfig;
use crate::float_bits::{
    double_rank, power_of_two, round_half_even, rounded_quotient, DOUBLE_FRACTION, DOUBLE_SIGN,
};
use crate::float_laws::double_units;
use crate::settings_editor::{
    css_text, scaled_rules, thousandths, thousandths_text, ui_scale_css, SETTINGS_CSS,
};
use crate::terminal::widget::{bound_opacity, bounded_opacity, FULL_OPACITY};

verus! {

/// Class of the window's own text entries.
pub const HOST_ENTRY_CSS_CLASS: &'static str = "limux-host-entry";

/// Class of the entry that renames a workspace.
pub const WORKSPACE_RENAME_ENTRY_CSS_CLASS: &'static str = "limux-ws-rename-entry";

/// Class of the handle that resizes the sidebar.
pub const SIDEBAR_HANDLE_CSS_CLASS: &'static str = "limux-sidebar-handle";

/// Cursor over the handle that resizes the sidebar.
pub const SIDEBAR_HANDLE_CURSOR_NAME: &'static str = "col-resize";

/// The style rules that never change.
pub const BASE_CSS: &'static str = "
:root {
    --limux-host-entry-bg: rgba(255, 255, 255, 0.98);
    --limux-host-entry-fg: rgba(15, 23, 42, 0.96);
    --limux-host-entry-border: rgba(15, 23, 42, 0.16);
    --limux-host-entry-border-focus: rgba(0, 145, 255, 0.72);
    --limux-host-entry-placeholder: rgba(15, 23, 42, 0.5);
}
@media (prefers-color-scheme: dark) {
    :root {
        --limux-host-entry-bg: rgba(44, 44, 48, 0.98);
        --limux-host-entry-fg: rgba(255, 255, 255, 0.96);
        --limux-host-entry-border: rgba(255, 255, 255, 0.14);
        --limux-host-entry-border-focus: rgba(0, 145, 255, 0.78);
        --limux-host-entry-placeholder: rgba(255, 255, 255, 0.48);
    }
}
.limux-host-entry {
    background-color: var(--limux-host-entry-bg);
    color: var(--limux-host-entry-fg);
    border: 1px solid var(--limux-host-entry-border);
    border-radius: 6px;
    caret-color: currentColor;
}
.limux-host-entry:focus-within {
    border-color: var(--limux-host-entry-border-focus);
}
.limux-host-entry text {
    background-color: transparent;
    color: var(--limux-host-entry-fg);
}
.limux-host-entry text placeholder {
    color: var(--limux-host-entry-placeholder);
}
.limux-host-entry image {
    color: var(--limux-host-entry-placeholder);
}
.limux-sidebar {
    background-color: @window_bg_color;
    color: @window_fg_color;
    border-right: 1px solid alpha(@window_fg_color, 0.08);
}
.limux-sidebar-row-box {
    padding: 8px 6px 8px 3px;
    border-radius: 6px;
    margin: 2px 3px 2px 1px;
}
.limux-ws-name {
    color: alpha(@window_fg_color, 0.72);
    font-size: 15px;
}
row:selected .limux-ws-name {
    color: @window_fg_color;
}
.limux-ws-star-btn {
    color: alpha(@window_fg_color, 0.45);
    border: none;
    min-height: 0;
    min-width: 0;
    padding: 0 4px;
    font-size: 22px;
}
.limux-ws-star-btn:hover {
    color: alpha(@window_fg_color, 0.9);
}
row:selected .limux-ws-star-btn {
    color: alpha(@window_fg_color, 0.85);
}
.limux-ws-star-btn-active {
    color: @accent_bg_color;
}
.limux-ws-rename-entry {
    min-height: 0;
    padding: 0 4px;
    margin: 0;
}
.limux-notify-dot {
    color: @accent_bg_color;
    font-size: 10px;
    margin-right: 6px;
}
.limux-notify-dot-hidden {
    color: transparent;
    font-size: 10px;
    margin-right: 6px;
}
.limux-notify-msg {
    color: alpha(@window_fg_color, 0.35);
    font-size: 11px;
}
.limux-notify-msg-unread {
    color: alpha(@accent_bg_color, 0.9);
    font-size: 11px;
}
.limux-sidebar-row-unread {
    background-color: alpha(@accent_bg_color, 0.16);
    border-left: 3px solid @accent_bg_color;
    border-radius: 6px;
    margin-left: 0;
    margin-right: 0;
}
.limux-sidebar-row-unread .limux-ws-name {
    color: @window_fg_color;
    font-weight: 700;
}
.limux-drop-above .limux-sidebar-row-box {
    border-radius: 0;
    box-shadow: 0 -2px 0 0 @accent_bg_color;
}
.limux-drop-below .limux-sidebar-row-box {
    border-radius: 0;
    box-shadow: 0 2px 0 0 @accent_bg_color;
}
.limux-tab-drop-target {
    background-color: alpha(@accent_bg_color, 0.18);
    border-radius: 8px;
}
.limux-sidebar row:drop(active) {
    box-shadow: none;
}
.limux-sidebar-title {
    color: alpha(@window_fg_color, 0.55);
    font-size: 11px;
    font-weight: 600;
    letter-spacing: 1px;
}
.limux-sidebar-btn {
    background: alpha(@window_fg_color, 0.08);
    color: alpha(@window_fg_color, 0.7);
    border: 1px solid transparent;
    border-radius: 6px;
    padding: 6px 12px;
    min-height: 0;
    transition: all 200ms ease;
}
.limux-sidebar-btn:hover {
    background: alpha(@window_fg_color, 0.14);
    color: @window_fg_color;
}
.limux-sidebar-btn-trash {
    background: alpha(@error_color, 0.16);
    color: @error_color;
    border: 1px solid alpha(@error_color, 0.4);
}
.limux-sidebar-btn-trash-hover {
    background: alpha(@error_color, 0.26);
    color: @error_color;
    border: 1px solid alpha(@error_color, 0.7);
}
.limux-tab-drag-active {
    background-color: alpha(@accent_bg_color, 0.12);
    border-width: 1px;
    border-style: dashed;
    border-color: alpha(@accent_bg_color, 0.6);
    border-radius: 8px;
}
.limux-sidebar-btn.limux-tab-drop-target {
    background-color: alpha(@accent_bg_color, 0.28);
    border-color: alpha(@accent_bg_color, 0.9);
}
.limux-ws-path {
    color: alpha(@window_fg_color, 0.3);
    font-size: 12px;
}
row:selected .limux-ws-path {
    color: alpha(@window_fg_color, 0.5);
}
.limux-content {
    background-color: @window_bg_color;
}
.limux-sidebar-handle {
    min-width: 3px;
    background-color: alpha(@window_fg_color, 0.08);
}
.limux-sidebar-handle:hover {
    background-color: alpha(@accent_bg_color, 0.45);
}
";

/// The classes of the entry that renames a workspace.
pub fn workspace_rename_entry_css_classes() -> (r: [&'static str; 2])
    ensures
        r@[0]@ == HOST_ENTRY_CSS_CLASS@,
        r@[1]@ == WORKSPACE_RENAME_ENTRY_CSS_CLASS@,
{
    [HOST_ENTRY_CSS_CLASS, WORKSPACE_RENAME_ENTRY_CSS_CLASS]
}

/// An opacity that can be used: between 0 and 1, and 1 for what is no finite
/// number. Opacities are double-precision patterns.
pub fn sanitize_background_opacity(background_opacity: u64) -> (r: u64)
    ensures
        r == bounded_opacity(background_opacity),
{
    bound_opacity(background_opacity)
}

/// Whether an opacity lets nothing through.
pub fn use_opaque_window_background(background_opacity: u64) -> (r: bool)
    ensures
        r == (bounded_opacity(background_opacity) == FULL_OPACITY),
{
    sanitize_background_opacity(background_opacity) == FULL_OPACITY
}

/// A usable opacity is full or below 1.
pub proof fn lemma_usable_opacity(bits: u64)
    ensures
        double_rank(bounded_opacity(bits)) <= double_rank(FULL_OPACITY),
        bounded_opacity(bits) != FULL_OPACITY ==> double_rank(bounded_opacity(bits))
            < double_rank(FULL_OPACITY),
        double_rank(bounded_opacity(bits)) >= 0,
{
}

/// An opacity in thousandths, ties to even. The number is its significand times a
/// power of two. Shifted by 64 or more it is below 2^-11, less than half of one
/// thousandth, and nothing is left.
pub open spec fn opacity_thousandths(magnitude: int) -> nat {
    let exponent = magnitude / (DOUBLE_FRACTION as int);
    let fraction = magnitude % (DOUBLE_FRACTION as int);
    let significand = if exponent == 0 {
        fraction
    } else {
        DOUBLE_FRACTION + fraction
    };
    let shift = if exponent == 0 {
        1074
    } else {
        1075 - exponent
    };
    if shift >= 64 {
        0
    } else {
        round_half_even(1000 * significand, pow2(shift as nat) as int) as nat
    }
}

/// A usable opacity with three decimals. Negative zero keeps its sign.
pub open spec fn opacity_text(bits: u64) -> Seq<char> {
    (if bits >= DOUBLE_SIGN {
        "-"@
    } else {
        Seq::empty()
    }) + thousandths_text(opacity_thousandths((bits % DOUBLE_SIGN) as int))
}

fn write_opacity(bits: u64) -> (r: String)
    requires
        bits % DOUBLE_SIGN <= FULL_OPACITY,
    ensures
        r@ == opacity_text(bits),
{
    let magnitude: u64 = bits % DOUBLE_SIGN;
    let exponent: u64 = magnitude / DOUBLE_FRACTION;
    let fraction: u64 = magnitude % DOUBLE_FRACTION;
    let n: u64 = if exponent == 0 || 1075 - exponent >= 64 {
        0
    } else {
        let shift: u32 = (1075 - exponent) as u32;
        proof {
            lemma2_to64();
            lemma2_to64_rest();
            lemma_pow2_strictly_increases(0, shift as nat);
            if shift < 63 {
                lemma_pow2_strictly_increases(shift as nat, 63);
            }
        }
        rounded_quotient(1000 * (DOUBLE_FRACTION + fraction), power_of_two(shift))
    };
    let number = thousandths(n);
    if bits >= DOUBLE_SIGN {
        let mut text = "-".to_owned();
        text.append(number.as_str());
        text
    } else {
        assert(Seq::<char>::empty() + number@ =~= number@);
        number
    }
}

/// The style of the window with its background at an opacity.
pub open spec fn window_css(opacity: u64) -> Seq<char> {
    BASE_CSS@ + "\n.limux-content {\n    background-color: rgba(23, 23, 23, "@ + opacity_text(
        bounded_opacity(opacity),
    ) + ");\n}\n"@
}

/// The style of the window with its background at an opacity, which is first made
/// usable.
pub fn build_window_css(background_opacity: u64) -> (r: String)
    ensures
        r@ == window_css(background_opacity),
{
    let opacity: u64 = sanitize_background_opacity(background_opacity);
    let mut css = BASE_CSS.to_owned();
    css.append("\n.limux-content {\n    background-color: rgba(23, 23, 23, ");
    css.append(write_opacity(opacity).as_str());
    css.append(");\n}\n");
    css
}

/// All style rules of the application. Those of the panes and of the shortcut
/// editor come with their widgets.
pub fn app_css(
    background_opacity: u64,
    pane_css: &str,
    keybind_editor_css: &str,
    config: &AppConfig,
) -> (r: String)
    ensures
        r@ == window_css(background_opacity) + "\n"@ + pane_css@ + "\n"@ + keybind_editor_css@
            + "\n"@ + SETTINGS_CSS@ + "\n"@ + css_text(
            scaled_rules(),
            scaled_rules().len(),
            config.appearance.ui_scale.bits(),
        ),
{
    let mut css = build_window_css(background_opacity);
    css.append("\n");
    css.append(pane_css);
    css.append("\n");
    css.append(keybind_editor_css);
    css.append("\n");
    css.append(SETTINGS_CSS);
    css.append("\n");
    css.append(ui_scale_css(config).as_str());
    css
}

/// An opacity is written to the thousandth: what is written is at most half a
/// thousandth away from the number.
pub proof fn lemma_written_opacity_is_close(bits: u64)
    requires
        bits <= FULL_OPACITY,
    ensures
        ({
            let written = opacity_thousandths(bits as int) * pow2(1074);
            let exact = 1000 * double_units(bits);
            -pow2(1074) <= 2 * (written - exact) <= pow2(1074)
        }),
{
    let exponent = bits as int / DOUBLE_FRACTION as int;
    let fraction = bits as int % DOUBLE_FRACTION as int;
    let significand: int = if exponent == 0 {
        fraction
    } else {
        DOUBLE_FRACTION + fraction
    };
    let shift: int = if exponent == 0 {
        1074
    } else {
        1075 - exponent
    };
    assert(0 <= exponent <= 1023);
    assert(0 <= significand < 0x20_0000_0000_0000);
    let d = pow2(shift as nat) as int;
    let p = pow2((1074 - shift) as nat) as int;
    lemma_pow2_pos(shift as nat);
    lemma_pow2_pos((1074 - shift) as nat);
    lemma_pow2_adds(shift as nat, (1074 - shift) as nat);
    lemma2_to64();
    assert(pow2(0) == 1);
    lemma2_to64_rest();
    assert(pow2(52) == DOUBLE_FRACTION);
    assert(bits % DOUBLE_SIGN == bits);
    assert(bits as nat / pow2(52) == exponent && bits as nat % pow2(52) == fraction);
    assert(double_units(bits) == significand * p);
    let t = opacity_thousandths(bits as int) as int;
    if shift >= 64 {
        if shift > 64 {
            lemma_pow2_strictly_increases(64, shift as nat);
        }
        assert(2000 * significand <= d);
        assert(t == 0);
        assert(0 <= 2 * (1000 * (significand * p)) <= d * p) by (nonlinear_arith)
            requires
                0 <= significand,
                2000 * significand <= d,
                p > 0,
        ;
        assert(t * pow2(1074) == 0) by (nonlinear_arith)
            requires
                t == 0,
        ;
    } else {
        let n = 1000 * significand;
        let q = n / d;
        let r = n % d;
        assert(n == d * q + r && 0 <= r < d && q >= 0) by (nonlinear_arith)
            requires
                d > 0,
                n >= 0,
                q == n / d,
                r == n % d,
        ;
        assert(t == round_half_even(n, d));
        assert(-d <= 2 * (t * d - n) <= d) by (nonlinear_arith)
            requires
                n == d * q + r,
                0 <= r < d,
                (t == q && 2 * r <= d) || (t == q + 1 && 2 * r >= d),
        ;
        assert(-(d * p) <= 2 * (t * (d * p) - 1000 * (significand * p)) <= d * p)
            by (nonlinear_arith)
            requires
                -d <= 2 * (t * d - n) <= d,
                n == 1000 * significand,
                p > 0,
        ;
    }
}

/// A sign is written exactly where the opacity has one, before what is written of the
/// number without it.
pub proof fn lemma_sign_of_opacity(bits: u64)
    ensures
        bits < DOUBLE_SIGN ==> opacity_text(bits) == thousandths_text(
            opacity_thousandths(bits as int),
        ),
        bits >= DOUBLE_SIGN ==> opacity_text(bits) == "-"@ + opacity_text(
            (bits - DOUBLE_SIGN) as u64,
        ),
{
    let rest = (bits % DOUBLE_SIGN) as u64;
    assert(Seq::<char>::empty() + thousandths_text(opacity_thousandths(rest as int))
        =~= thousandths_text(opacity_thousandths(rest as int)));
    if bits >= DOUBLE_SIGN {
        assert(bits % DOUBLE_SIGN == bits - DOUBLE_SIGN);
    }
}

/// The style of the window begins with what does not depend on the settings, and
/// gives the content the opacity that was asked for, kept between 0 and 1.
pub proof fn lemma_style_has_the_opacity(opacity: u64)
    ensures
        BASE_CSS@.is_prefix_of(window_css(opacity)),
        (opacity_text(bounded_opacity(opacity)) + ");\n}\n"@).is_suffix_of(window_css(opacity)),
        bounded_opacity(opacity) == opacity ==> (opacity_text(opacity)
            + ");\n}\n"@).is_suffix_of(window_css(opacity)),
{
    let css = window_css(opacity);
    let tail = opacity_text(bounded_opacity(opacity)) + ");\n}\n"@;
    assert(BASE_CSS@ =~= css.subrange(0, BASE_CSS@.len() as int));
    assert(tail =~= css.subrange(css.len() - tail.len(), css.len() as int));
}

} // verus!
