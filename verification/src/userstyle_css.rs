//! The CSS texts of the built-in styles: the theme presets offered in the
//! style menu and the older userstyle templates that sessions may still hold.

use vstd::prelude::*;

verus! {

pub const THEME_PRESET_AMETHYST: &'static str = r#"/* Amethyst
Cardthropic Theme Reference Template
You can copy this into Custom CSS and tweak values section-by-section.
Target map:
  1) Global text/surfaces: window, box, label, headerbar, popover, frame
  2) Board surface: .board-background
  3) Inputs/buttons: button, entry, combobox, dropdown
  4) Status/HUD text: .status-line, .stats-line, .dim-label
  5) Card interaction states:
     .tableau-selected-card, .waste-selected-card, .smart-move-fail-flash,
     .keyboard-focus-card, .keyboard-focus-empty
  6) Empty-slot chrome: .card-slot, .card-slot:drop(active), .tableau-drop-target:drop(active)
  7) Motion accents: .hint-invert, .motion-fly-card
  8) Seed check fields: entry.seed-winnable / entry.seed-unwinnable
Note: actual face card artwork is SVG texture-based and not recolored by CSS.
*/
window,
window background,
box,
label {
  color: #f8efff;
}

headerbar,
popover,
menu,
frame {
  background: rgba(34, 20, 52, 0.66);
}

.board-background {
  background-image:
    radial-gradient(circle at 14% 12%, rgba(193, 116, 255, 0.16), transparent 40%),
    radial-gradient(circle at 84% 84%, rgba(138, 87, 255, 0.13), transparent 42%),
    linear-gradient(160deg, #3d2361, #523180 52%, #2a1842 100%);
  border: 2px solid rgba(203, 158, 255, 0.40);
  box-shadow:
    0 0 0 1px alpha(rgba(203, 158, 255, 0.40), 0.22),
    0 12px 34px alpha(#000000, 0.46);
}

button {
  color: #f8efff;
  border-radius: 11px;
  border: 1px solid alpha(rgba(203, 158, 255, 0.40), 0.85);
  background-image: linear-gradient(180deg, #9b67de, #7246ac);
}

button:hover {
  border-color: alpha(#b67aff, 0.90);
}

button:active {
  background-image: linear-gradient(180deg, #7246ac, #9b67de);
}

.hud-toggle:checked {
  color: #b67aff;
  border-color: alpha(#b67aff, 0.75);
  box-shadow: inset 0 0 0 1px alpha(#b67aff, 0.30);
  background-color: alpha(#b67aff, 0.14);
}

entry,
combobox,
dropdown,
popover entry {
  color: #f8efff;
  background: rgba(30, 22, 47, 0.82);
  border: 1px solid rgba(210, 179, 255, 0.40);
}

.status-line {
  color: #f8efff;
  font-weight: 700;
}

.stats-line,
.dim-label {
  color: rgba(226, 205, 255, 0.84);
}

.tableau-selected-card,
.waste-selected-card {
  box-shadow:
    inset 0 0 0 2px alpha(#b67aff, 0.95),
    0 0 10px alpha(#b67aff, 0.34);
  background-color: alpha(#b67aff, 0.12);
}

.smart-move-fail-flash {
  box-shadow:
    inset 0 0 0 3px alpha(#b67aff, 1.0),
    0 0 14px alpha(#b67aff, 0.55);
  background-color: alpha(#b67aff, 0.24);
}

.keyboard-focus-card {
  box-shadow:
    inset 0 0 0 2px #0d1020,
    inset 0 0 0 5px #ffffff,
    inset 0 0 0 8px #b67aff;
}

.keyboard-focus-empty {
  box-shadow: inset 0 0 0 3px alpha(#b67aff, 0.92);
  background-color: alpha(#b67aff, 0.12);
}

.card-slot {
  border: 1px solid alpha(rgba(203, 158, 255, 0.40), 0.62);
  background-color: alpha(rgba(203, 158, 255, 0.40), 0.08);
}

.card-slot:drop(active),
.tableau-drop-target:drop(active) {
  border: 1px solid alpha(#b67aff, 0.62);
  background-color: alpha(#b67aff, 0.10);
  box-shadow: none;
  outline: none;
}

.slot-emoji {
  opacity: 0.78;
}

.hint-invert {
  filter: invert(1);
  color: #b67aff;
  background-color: alpha(#b67aff, 0.12);
}

.motion-fly-card {
  box-shadow:
    0 2px 10px alpha(#000000, 0.44),
    0 0 0 1px alpha(#b67aff, 0.30);
}

entry.seed-winnable {
  background-color: alpha(#2ecc71, 0.22);
  border-color: alpha(#2ecc71, 0.85);
}

entry.seed-unwinnable {
  background-color: alpha(#e74c3c, 0.22);
  border-color: alpha(#e74c3c, 0.85);
}
"#;

pub const THEME_PRESET_AQUAMARINE: &'static str = r#"/* Aquamarine
Cardthropic Theme Reference Template
You can copy this into Custom CSS and tweak values section-by-section.
Target map:
  1) Global text/surfaces: window, box, label, headerbar, popover, frame
  2) Board surface: .board-background
  3) Inputs/buttons: button, entry, combobox, dropdown
  4) Status/HUD text: .status-line, .stats-line, .dim-label
  5) Card interaction states:
     .tableau-selected-card, .waste-selected-card, .smart-move-fail-flash,
     .keyboard-focus-card, .keyboard-focus-empty
  6) Empty-slot chrome: .card-slot, .card-slot:drop(active), .tableau-drop-target:drop(active)
  7) Motion accents: .hint-invert, .motion-fly-card
  8) Seed check fields: entry.seed-winnable / entry.seed-unwinnable
Note: actual face card artwork is SVG texture-based and not recolored by CSS.
*/
window,
window background,
box,
label {
  color: #edfffb;
}

headerbar,
popover,
menu,
frame {
  background: rgba(12, 47, 51, 0.66);
}

.board-background {
  background-image:
    radial-gradient(circle at 14% 12%, rgba(102, 255, 235, 0.14), transparent 40%),
    radial-gradient(circle at 84% 84%, rgba(54, 190, 210, 0.15), transparent 42%),
    linear-gradient(160deg, #0f4d57, #146976 52%, #0b343a 100%);
  border: 2px solid rgba(140, 237, 226, 0.42);
  box-shadow:
    0 0 0 1px alpha(rgba(140, 237, 226, 0.42), 0.22),
    0 12px 34px alpha(#000000, 0.46);
}

button {
  color: #edfffb;
  border-radius: 11px;
  border: 1px solid alpha(rgba(140, 237, 226, 0.42), 0.85);
  background-image: linear-gradient(180deg, #2baea3, #1c8b83);
}

button:hover {
  border-color: alpha(#52f5da, 0.90);
}

button:active {
  background-image: linear-gradient(180deg, #1c8b83, #2baea3);
}

.hud-toggle:checked {
  color: #52f5da;
  border-color: alpha(#52f5da, 0.75);
  box-shadow: inset 0 0 0 1px alpha(#52f5da, 0.30);
  background-color: alpha(#52f5da, 0.14);
}

entry,
combobox,
dropdown,
popover entry {
  color: #edfffb;
  background: rgba(10, 39, 42, 0.82);
  border: 1px solid rgba(156, 246, 238, 0.42);
}

.status-line {
  color: #edfffb;
  font-weight: 700;
}

.stats-line,
.dim-label {
  color: rgba(195, 255, 246, 0.84);
}

.tableau-selected-card,
.waste-selected-card {
  box-shadow:
    inset 0 0 0 2px alpha(#52f5da, 0.95),
    0 0 10px alpha(#52f5da, 0.34);
  background-color: alpha(#52f5da, 0.12);
}

.smart-move-fail-flash {
  box-shadow:
    inset 0 0 0 3px alpha(#52f5da, 1.0),
    0 0 14px alpha(#52f5da, 0.55);
  background-color: alpha(#52f5da, 0.24);
}

.keyboard-focus-card {
  box-shadow:
    inset 0 0 0 2px #0d1020,
    inset 0 0 0 5px #ffffff,
    inset 0 0 0 8px #52f5da;
}

.keyboard-focus-empty {
  box-shadow: inset 0 0 0 3px alpha(#52f5da, 0.92);
  background-color: alpha(#52f5da, 0.12);
}

.card-slot {
  border: 1px solid alpha(rgba(140, 237, 226, 0.42), 0.62);
  background-color: alpha(rgba(140, 237, 226, 0.42), 0.08);
}

.card-slot:drop(active),
.tableau-drop-target:drop(active) {
  border: 1px solid alpha(#52f5da, 0.62);
  background-color: alpha(#52f5da, 0.10);
  box-shadow: none;
  outline: none;
}

.slot-emoji {
  opacity: 0.78;
}

.hint-invert {
  filter: invert(1);
  color: #52f5da;
  background-color: alpha(#52f5da, 0.12);
}

.motion-fly-card {
  box-shadow:
    0 2px 10px alpha(#000000, 0.44),
    0 0 0 1px alpha(#52f5da, 0.30);
}

entry.seed-winnable {
  background-color: alpha(#2ecc71, 0.22);
  border-color: alpha(#2ecc71, 0.85);
}

entry.seed-unwinnable {
  background-color: alpha(#e74c3c, 0.22);
  border-color: alpha(#e74c3c, 0.85);
}
"#;

pub const THEME_PRESET_CARDTHROPIC: &'static str = r#"/* Cardthropic
Signature neon/glass look.
Target map: window/headerbar/popover, .board-background, button/input, status text,
selection/focus states, .card-slot drop states, motion, seed result entries.
*/
window, window background, box, label { color: #fff4ff; }
headerbar, popover, menu, frame { background: rgba(18, 10, 36, 0.58); }

.board-background {
  background-image:
    radial-gradient(circle at 12% 10%, rgba(255, 0, 140, 0.34), transparent 40%),
    radial-gradient(circle at 88% 88%, rgba(0, 236, 255, 0.30), transparent 42%),
    linear-gradient(145deg, #3b1868, #1f3f82 50%, #0a3363 100%);
  border: 2px solid rgba(255, 126, 224, 0.56);
  box-shadow:
    0 0 0 1px rgba(255, 255, 255, 0.24),
    0 0 26px rgba(255, 0, 170, 0.34),
    0 0 40px rgba(0, 214, 255, 0.24);
}

button {
  color: #fff8ff;
  border-radius: 12px;
  border: 1px solid rgba(255, 147, 233, 0.78);
  background-image: linear-gradient(180deg, #8442a2, #563274);
}
button:hover { border-color: rgba(247, 153, 255, 0.95); }
button:active { background-image: linear-gradient(180deg, #563274, #8442a2); }

.hud-toggle:checked {
  color: #ff9bff;
  border-color: rgba(255, 155, 255, 0.72);
  background-color: rgba(255, 90, 235, 0.14);
  box-shadow: inset 0 0 0 1px rgba(255, 155, 255, 0.26);
}

entry, combobox, dropdown, popover entry {
  color: #fff6ff;
  background: rgba(14, 18, 34, 0.62);
  border: 1px solid rgba(211, 179, 255, 0.38);
}

.status-line { color: #ffe9fc; font-weight: 700; }
.stats-line, .dim-label { color: rgba(247, 221, 255, 0.86); }

.tableau-selected-card, .waste-selected-card {
  box-shadow: inset 0 0 0 2px rgba(246, 120, 255, 0.96), 0 0 12px rgba(111, 231, 255, 0.32);
  background-color: rgba(233, 124, 255, 0.12);
}
.smart-move-fail-flash {
  box-shadow: inset 0 0 0 3px rgba(246, 120, 255, 1.0), 0 0 16px rgba(246, 120, 255, 0.54);
  background-color: rgba(246, 120, 255, 0.24);
}
.keyboard-focus-card {
  box-shadow: inset 0 0 0 2px #0d1020, inset 0 0 0 5px #ffffff, inset 0 0 0 8px #f678ff;
}
.keyboard-focus-empty {
  box-shadow: inset 0 0 0 3px rgba(111, 231, 255, 0.92);
  background-color: rgba(111, 231, 255, 0.12);
}

.card-slot { border: 1px solid rgba(213, 176, 255, 0.60); background-color: rgba(213, 176, 255, 0.08); }
.card-slot:drop(active), .tableau-drop-target:drop(active) {
  border: 1px solid rgba(111, 231, 255, 0.62);
  background-color: rgba(111, 231, 255, 0.10);
  box-shadow: none;
  outline: none;
}
.slot-emoji { opacity: 0.86; }

.hint-invert { filter: invert(1); color: #6fe7ff; background-color: rgba(111, 231, 255, 0.10); }
.motion-fly-card { box-shadow: 0 2px 10px rgba(0, 0, 0, 0.44), 0 0 0 1px rgba(246, 120, 255, 0.32); }

entry.seed-winnable { background-color: rgba(46, 204, 113, 0.22); border-color: rgba(46, 204, 113, 0.85); }
entry.seed-unwinnable { background-color: rgba(231, 76, 60, 0.22); border-color: rgba(231, 76, 60, 0.85); }
"#;

pub const THEME_PRESET_CITRINE: &'static str = r#"/* Citrine
Cardthropic Theme Reference Template
You can copy this into Custom CSS and tweak values section-by-section.
Target map:
  1) Global text/surfaces: window, box, label, headerbar, popover, frame
  2) Board surface: .board-background
  3) Inputs/buttons: button, entry, combobox, dropdown
  4) Status/HUD text: .status-line, .stats-line, .dim-label
  5) Card interaction states:
     .tableau-selected-card, .waste-selected-card, .smart-move-fail-flash,
     .keyboard-focus-card, .keyboard-focus-empty
  6) Empty-slot chrome: .card-slot, .card-slot:drop(active), .tableau-drop-target:drop(active)
  7) Motion accents: .hint-invert, .motion-fly-card
  8) Seed check fields: entry.seed-winnable / entry.seed-unwinnable
Note: actual face card artwork is SVG texture-based and not recolored by CSS.
*/
window,
window background,
box,
label {
  color: #fff9ea;
}

headerbar,
popover,
menu,
frame {
  background: rgba(56, 43, 14, 0.64);
}

.board-background {
  background-image:
    radial-gradient(circle at 14% 12%, rgba(255, 224, 116, 0.15), transparent 40%),
    radial-gradient(circle at 84% 84%, rgba(222, 176, 55, 0.14), transparent 42%),
    linear-gradient(160deg, #6b5319, #876b21 52%, #473810 100%);
  border: 2px solid rgba(247, 214, 122, 0.40);
  box-shadow:
    0 0 0 1px alpha(rgba(247, 214, 122, 0.40), 0.22),
    0 12px 34px alpha(#000000, 0.46);
}

button {
  color: #fff9ea;
  border-radius: 11px;
  border: 1px solid alpha(rgba(247, 214, 122, 0.40), 0.85);
  background-image: linear-gradient(180deg, #c49a2f, #9b7723);
}

button:hover {
  border-color: alpha(#ffd36b, 0.90);
}

button:active {
  background-image: linear-gradient(180deg, #9b7723, #c49a2f);
}

.hud-toggle:checked {
  color: #ffd36b;
  border-color: alpha(#ffd36b, 0.75);
  box-shadow: inset 0 0 0 1px alpha(#ffd36b, 0.30);
  background-color: alpha(#ffd36b, 0.14);
}

entry,
combobox,
dropdown,
popover entry {
  color: #fff9ea;
  background: rgba(47, 36, 11, 0.82);
  border: 1px solid rgba(248, 223, 146, 0.42);
}

.status-line {
  color: #fff9ea;
  font-weight: 700;
}

.stats-line,
.dim-label {
  color: rgba(248, 227, 159, 0.84);
}

.tableau-selected-card,
.waste-selected-card {
  box-shadow:
    inset 0 0 0 2px alpha(#ffd36b, 0.95),
    0 0 10px alpha(#ffd36b, 0.34);
  background-color: alpha(#ffd36b, 0.12);
}

.smart-move-fail-flash {
  box-shadow:
    inset 0 0 0 3px alpha(#ffd36b, 1.0),
    0 0 14px alpha(#ffd36b, 0.55);
  background-color: alpha(#ffd36b, 0.24);
}

.keyboard-focus-card {
  box-shadow:
    inset 0 0 0 2px #0d1020,
    inset 0 0 0 5px #ffffff,
    inset 0 0 0 8px #ffd36b;
}

.keyboard-focus-empty {
  box-shadow: inset 0 0 0 3px alpha(#ffd36b, 0.92);
  background-color: alpha(#ffd36b, 0.12);
}

.card-slot {
  border: 1px solid alpha(rgba(247, 214, 122, 0.40), 0.62);
  background-color: alpha(rgba(247, 214, 122, 0.40), 0.08);
}

.card-slot:drop(active),
.tableau-drop-target:drop(active) {
  border: 1px solid alpha(#ffd36b, 0.62);
  background-color: alpha(#ffd36b, 0.10);
  box-shadow: none;
  outline: none;
}

.slot-emoji {
  opacity: 0.78;
}

.hint-invert {
  filter: invert(1);
  color: #ffd36b;
  background-color: alpha(#ffd36b, 0.12);
}

.motion-fly-card {
  box-shadow:
    0 2px 10px alpha(#000000, 0.44),
    0 0 0 1px alpha(#ffd36b, 0.30);
}

entry.seed-winnable {
  background-color: alpha(#2ecc71, 0.22);
  border-color: alpha(#2ecc71, 0.85);
}

entry.seed-unwinnable {
  background-color: alpha(#e74c3c, 0.22);
  border-color: alpha(#e74c3c, 0.85);
}
"#;

pub const THEME_PRESET_CRT: &'static str = r#"/* CRT
Retro phosphor monitor style.
Target map:
  1) Global surfaces/text: window, headerbar, popover, frame, label
  2) Board skin: .board-background
  3) Controls: button, entry, dropdown
  4) Card interaction states: selected/focus/empty-focus
  5) Slot styling: .card-slot and drop targets
  6) Extras: status text, hint/motion classes, seed result entries
*/
window,
window background,
box,
label {
  color: #d9ffd0;
}

.board-background {
  background-image:
    repeating-linear-gradient(
      0deg,
      rgba(0, 255, 120, 0.08),
      rgba(0, 255, 120, 0.08) 1px,
      rgba(0, 0, 0, 0.0) 1px,
      rgba(0, 0, 0, 0.0) 3px
    ),
    radial-gradient(circle at 50% 30%, rgba(0, 255, 136, 0.10), transparent 65%),
    linear-gradient(180deg, #04120a, #021008);
  border: 2px solid rgba(85, 255, 170, 0.40);
  box-shadow:
    inset 0 0 24px rgba(0, 255, 120, 0.16),
    0 0 22px rgba(0, 255, 120, 0.25);
}

headerbar,
popover,
frame {
  background: rgba(2, 18, 10, 0.72);
}

button {
  color: #dcffd6;
  border-radius: 8px;
  border: 1px solid rgba(99, 255, 169, 0.45);
  background-image: linear-gradient(180deg, #08301b, #052313);
}
button:hover {
  border-color: rgba(99, 255, 169, 0.80);
}
button:active {
  background-image: linear-gradient(180deg, #052313, #08301b);
}

.hud-toggle:checked {
  color: #8dffbd;
  border-color: rgba(99, 255, 169, 0.65);
  background-color: rgba(16, 255, 134, 0.12);
  box-shadow: inset 0 0 0 1px rgba(99, 255, 169, 0.30);
}

entry, combobox, dropdown, popover entry {
  color: #d9ffd0;
  background: rgba(2, 15, 9, 0.86);
  border: 1px solid rgba(99, 255, 169, 0.38);
}

.status-line {
  color: #deffda;
  font-weight: 700;
}

.stats-line,
.dim-label {
  color: rgba(211, 255, 203, 0.82);
}

.tableau-selected-card,
.waste-selected-card {
  box-shadow:
    0 0 14px rgba(16, 255, 134, 0.55),
    inset 0 0 0 2px rgba(16, 255, 134, 0.88);
  background-color: rgba(16, 255, 134, 0.10);
}
.smart-move-fail-flash {
  box-shadow:
    inset 0 0 0 3px rgba(16, 255, 134, 1.0),
    0 0 16px rgba(16, 255, 134, 0.62);
  background-color: rgba(16, 255, 134, 0.20);
}
.keyboard-focus-card {
  box-shadow:
    inset 0 0 0 2px #031008,
    inset 0 0 0 5px #e6ffe1,
    inset 0 0 0 8px rgba(16, 255, 134, 0.95);
}
.keyboard-focus-empty {
  box-shadow: inset 0 0 0 3px rgba(16, 255, 134, 0.90);
  background-color: rgba(16, 255, 134, 0.12);
}

.card-slot {
  border: 1px solid rgba(90, 255, 164, 0.30);
  background-color: rgba(16, 255, 134, 0.04);
}

.card-slot:drop(active),
.tableau-drop-target:drop(active) {
  border: 1px solid rgba(99, 255, 169, 0.52);
  background-color: rgba(16, 255, 134, 0.09);
  box-shadow: none;
  outline: none;
}
.slot-emoji {
  opacity: 0.84;
}

.hint-invert {
  filter: invert(1);
  color: #16ff86;
  background-color: rgba(16, 255, 134, 0.10);
}

.motion-fly-card {
  box-shadow:
    0 2px 10px rgba(0, 0, 0, 0.46),
    0 0 0 1px rgba(16, 255, 134, 0.34);
}

entry.seed-winnable { background-color: rgba(46, 204, 113, 0.22); border-color: rgba(46, 204, 113, 0.85); }
entry.seed-unwinnable { background-color: rgba(231, 76, 60, 0.22); border-color: rgba(231, 76, 60, 0.85); }
"#;

pub const THEME_PRESET_DIAMOND: &'static str = r#"/* Diamond
Cardthropic Theme Reference Template
You can copy this into Custom CSS and tweak values section-by-section.
Target map:
  1) Global text/surfaces: window, box, label, headerbar, popover, frame
  2) Board surface: .board-background
  3) Inputs/buttons: button, entry, combobox, dropdown
  4) Status/HUD text: .status-line, .stats-line, .dim-label
  5) Card interaction states:
     .tableau-selected-card, .waste-selected-card, .smart-move-fail-flash,
     .keyboard-focus-card, .keyboard-focus-empty
  6) Empty-slot chrome: .card-slot, .card-slot:drop(active), .tableau-drop-target:drop(active)
  7) Motion accents: .hint-invert, .motion-fly-card
  8) Seed check fields: entry.seed-winnable / entry.seed-unwinnable
Note: actual face card artwork is SVG texture-based and not recolored by CSS.
*/
window,
window background,
box,
label {
  color: #f7fbff;
}

headerbar,
popover,
menu,
frame {
  background: rgba(24, 30, 44, 0.66);
}

.board-background {
  background-image:
    radial-gradient(circle at 14% 12%, rgba(182, 217, 255, 0.16), transparent 40%),
    radial-gradient(circle at 84% 84%, rgba(130, 180, 255, 0.12), transparent 42%),
    linear-gradient(160deg, #283349, #344462 52%, #1b2433 100%);
  border: 2px solid rgba(201, 223, 255, 0.40);
  box-shadow:
    0 0 0 1px alpha(rgba(201, 223, 255, 0.40), 0.22),
    0 12px 34px alpha(#000000, 0.46);
}

button {
  color: #f7fbff;
  border-radius: 11px;
  border: 1px solid alpha(rgba(201, 223, 255, 0.40), 0.85);
  background-image: linear-gradient(180deg, #6c8ec5, #4f6d9b);
}

button:hover {
  border-color: alpha(#8eb8ff, 0.90);
}

button:active {
  background-image: linear-gradient(180deg, #4f6d9b, #6c8ec5);
}

.hud-toggle:checked {
  color: #8eb8ff;
  border-color: alpha(#8eb8ff, 0.75);
  box-shadow: inset 0 0 0 1px alpha(#8eb8ff, 0.30);
  background-color: alpha(#8eb8ff, 0.14);
}

entry,
combobox,
dropdown,
popover entry {
  color: #f7fbff;
  background: rgba(20, 28, 43, 0.84);
  border: 1px solid rgba(205, 225, 255, 0.42);
}

.status-line {
  color: #f7fbff;
  font-weight: 700;
}

.stats-line,
.dim-label {
  color: rgba(215, 230, 255, 0.84);
}

.tableau-selected-card,
.waste-selected-card {
  box-shadow:
    inset 0 0 0 2px alpha(#8eb8ff, 0.95),
    0 0 10px alpha(#8eb8ff, 0.34);
  background-color: alpha(#8eb8ff, 0.12);
}

.smart-move-fail-flash {
  box-shadow:
    inset 0 0 0 3px alpha(#8eb8ff, 1.0),
    0 0 14px alpha(#8eb8ff, 0.55);
  background-color: alpha(#8eb8ff, 0.24);
}

.keyboard-focus-card {
  box-shadow:
    inset 0 0 0 2px #0d1020,
    inset 0 0 0 5px #ffffff,
    inset 0 0 0 8px #8eb8ff;
}

.keyboard-focus-empty {
  box-shadow: inset 0 0 0 3px alpha(#8eb8ff, 0.92);
  background-color: alpha(#8eb8ff, 0.12);
}

.card-slot {
  border: 1px solid alpha(rgba(201, 223, 255, 0.40), 0.62);
  background-color: alpha(rgba(201, 223, 255, 0.40), 0.08);
}

.card-slot:drop(active),
.tableau-drop-target:drop(active) {
  border: 1px solid alpha(#8eb8ff, 0.62);
  background-color: alpha(#8eb8ff, 0.10);
  box-shadow: none;
  outline: none;
}

.slot-emoji {
  opacity: 0.78;
}

.hint-invert {
  filter: invert(1);
  color: #8eb8ff;
  background-color: alpha(#8eb8ff, 0.12);
}

.motion-fly-card {
  box-shadow:
    0 2px 10px alpha(#000000, 0.44),
    0 0 0 1px alpha(#8eb8ff, 0.30);
}

entry.seed-winnable {
  background-color: alpha(#2ecc71, 0.22);
  border-color: alpha(#2ecc71, 0.85);
}

entry.seed-unwinnable {
  background-color: alpha(#e74c3c, 0.22);
  border-color: alpha(#e74c3c, 0.85);
}
"#;

pub const THEME_PRESET_EMERALD: &'static str = r#"/* Emerald
Cardthropic Theme Reference Template
You can copy this into Custom CSS and tweak values section-by-section.
Target map:
  1) Global text/surfaces: window, box, label, headerbar, popover, frame
  2) Board surface: .board-background
  3) Inputs/buttons: button, entry, combobox, dropdown
  4) Status/HUD text: .status-line, .stats-line, .dim-label
  5) Card interaction states:
     .tableau-selected-card, .waste-selected-card, .smart-move-fail-flash,
     .keyboard-focus-card, .keyboard-focus-empty
  6) Empty-slot chrome: .card-slot, .card-slot:drop(active), .tableau-drop-target:drop(active)
  7) Motion accents: .hint-invert, .motion-fly-card
  8) Seed check fields: entry.seed-winnable / entry.seed-unwinnable
Note: actual face card artwork is SVG texture-based and not recolored by CSS.
*/
window,
window background,
box,
label {
  color: #effff1;
}

headerbar,
popover,
menu,
frame {
  background: rgba(16, 38, 22, 0.67);
}

.board-background {
  background-image:
    radial-gradient(circle at 14% 12%, rgba(120, 255, 158, 0.15), transparent 40%),
    radial-gradient(circle at 84% 84%, rgba(50, 200, 112, 0.14), transparent 42%),
    linear-gradient(160deg, #1a4d2a, #23693a 52%, #123520 100%);
  border: 2px solid rgba(138, 234, 170, 0.40);
  box-shadow:
    0 0 0 1px alpha(rgba(138, 234, 170, 0.40), 0.22),
    0 12px 34px alpha(#000000, 0.46);
}

button {
  color: #effff1;
  border-radius: 11px;
  border: 1px solid alpha(rgba(138, 234, 170, 0.40), 0.85);
  background-image: linear-gradient(180deg, #2eac5f, #228447);
}

button:hover {
  border-color: alpha(#4be07f, 0.90);
}

button:active {
  background-image: linear-gradient(180deg, #228447, #2eac5f);
}

.hud-toggle:checked {
  color: #4be07f;
  border-color: alpha(#4be07f, 0.75);
  box-shadow: inset 0 0 0 1px alpha(#4be07f, 0.30);
  background-color: alpha(#4be07f, 0.14);
}

entry,
combobox,
dropdown,
popover entry {
  color: #effff1;
  background: rgba(10, 33, 18, 0.84);
  border: 1px solid rgba(151, 245, 184, 0.42);
}

.status-line {
  color: #effff1;
  font-weight: 700;
}

.stats-line,
.dim-label {
  color: rgba(194, 255, 212, 0.84);
}

.tableau-selected-card,
.waste-selected-card {
  box-shadow:
    inset 0 0 0 2px alpha(#4be07f, 0.95),
    0 0 10px alpha(#4be07f, 0.34);
  background-color: alpha(#4be07f, 0.12);
}

.smart-move-fail-flash {
  box-shadow:
    inset 0 0 0 3px alpha(#4be07f, 1.0),
    0 0 14px alpha(#4be07f, 0.55);
  background-color: alpha(#4be07f, 0.24);
}

.keyboard-focus-card {
  box-shadow:
    inset 0 0 0 2px #0d1020,
    inset 0 0 0 5px #ffffff,
    inset 0 0 0 8px #4be07f;
}

.keyboard-focus-empty {
  box-shadow: inset 0 0 0 3px alpha(#4be07f, 0.92);
  background-color: alpha(#4be07f, 0.12);
}

.card-slot {
  border: 1px solid alpha(rgba(138, 234, 170, 0.40), 0.62);
  background-color: alpha(rgba(138, 234, 170, 0.40), 0.08);
}

.card-slot:drop(active),
.tableau-drop-target:drop(active) {
  border: 1px solid alpha(#4be07f, 0.62);
  background-color: alpha(#4be07f, 0.10);
  box-shadow: none;
  outline: none;
}

.slot-emoji {
  opacity: 0.78;
}

.hint-invert {
  filter: invert(1);
  color: #4be07f;
  background-color: alpha(#4be07f, 0.12);
}

.motion-fly-card {
  box-shadow:
    0 2px 10px alpha(#000000, 0.44),
    0 0 0 1px alpha(#4be07f, 0.30);
}

entry.seed-winnable {
  background-color: alpha(#2ecc71, 0.22);
  border-color: alpha(#2ecc71, 0.85);
}

entry.seed-unwinnable {
  background-color: alpha(#e74c3c, 0.22);
  border-color: alpha(#e74c3c, 0.85);
}
"#;

pub const THEME_PRESET_GARNET: &'static str = r#"/* Garnet
Cardthropic Theme Reference Template
You can copy this into Custom CSS and tweak values section-by-section.
Target map:
  1) Global text/surfaces: window, box, label, headerbar, popover, frame
  2) Board surface: .board-background
  3) Inputs/buttons: button, entry, combobox, dropdown
  4) Status/HUD text: .status-line, .stats-line, .dim-label
  5) Card interaction states:
     .tableau-selected-card, .waste-selected-card, .smart-move-fail-flash,
     .keyboard-focus-card, .keyboard-focus-empty
  6) Empty-slot chrome: .card-slot, .card-slot:drop(active), .tableau-drop-target:drop(active)
  7) Motion accents: .hint-invert, .motion-fly-card
  8) Seed check fields: entry.seed-winnable / entry.seed-unwinnable
Note: actual face card artwork is SVG texture-based and not recolored by CSS.
*/
window,
window background,
box,
label {
  color: #fff1f3;
}

headerbar,
popover,
menu,
frame {
  background: rgba(46, 9, 15, 0.68);
}

.board-background {
  background-image:
    radial-gradient(circle at 14% 12%, rgba(255, 82, 120, 0.16), transparent 40%),
    radial-gradient(circle at 84% 84%, rgba(196, 30, 58, 0.16), transparent 42%),
    linear-gradient(160deg, #420c1a, #5d1126 52%, #2a0811 100%);
  border: 2px solid rgba(245, 124, 145, 0.40);
  box-shadow:
    0 0 0 1px alpha(rgba(245, 124, 145, 0.40), 0.22),
    0 12px 34px alpha(#000000, 0.46);
}

button {
  color: #fff1f3;
  border-radius: 11px;
  border: 1px solid alpha(rgba(245, 124, 145, 0.40), 0.85);
  background-image: linear-gradient(180deg, #c13556, #8f233f);
}

button:hover {
  border-color: alpha(#e63b68, 0.90);
}

button:active {
  background-image: linear-gradient(180deg, #8f233f, #c13556);
}

.hud-toggle:checked {
  color: #e63b68;
  border-color: alpha(#e63b68, 0.75);
  box-shadow: inset 0 0 0 1px alpha(#e63b68, 0.30);
  background-color: alpha(#e63b68, 0.14);
}

entry,
combobox,
dropdown,
popover entry {
  color: #fff1f3;
  background: rgba(38, 10, 15, 0.84);
  border: 1px solid rgba(255, 148, 170, 0.42);
}

.status-line {
  color: #fff1f3;
  font-weight: 700;
}

.stats-line,
.dim-label {
  color: rgba(255, 206, 216, 0.84);
}

.tableau-selected-card,
.waste-selected-card {
  box-shadow:
    inset 0 0 0 2px alpha(#e63b68, 0.95),
    0 0 10px alpha(#e63b68, 0.34);
  background-color: alpha(#e63b68, 0.12);
}

.smart-move-fail-flash {
  box-shadow:
    inset 0 0 0 3px alpha(#e63b68, 1.0),
    0 0 14px alpha(#e63b68, 0.55);
  background-color: alpha(#e63b68, 0.24);
}

.keyboard-focus-card {
  box-shadow:
    inset 0 0 0 2px #0d1020,
    inset 0 0 0 5px #ffffff,
    inset 0 0 0 8px #e63b68;
}

.keyboard-focus-empty {
  box-shadow: inset 0 0 0 3px alpha(#e63b68, 0.92);
  background-color: alpha(#e63b68, 0.12);
}

.card-slot {
  border: 1px solid alpha(rgba(245, 124, 145, 0.40), 0.62);
  background-color: alpha(rgba(245, 124, 145, 0.40), 0.08);
}

.card-slot:drop(active),
.tableau-drop-target:drop(active) {
  border: 1px solid alpha(#e63b68, 0.62);
  background-color: alpha(#e63b68, 0.10);
  box-shadow: none;
  outline: none;
}

.slot-emoji {
  opacity: 0.78;
}

.hint-invert {
  filter: invert(1);
  color: #e63b68;
  background-color: alpha(#e63b68, 0.12);
}

.motion-fly-card {
  box-shadow:
    0 2px 10px alpha(#000000, 0.44),
    0 0 0 1px alpha(#e63b68, 0.30);
}

entry.seed-winnable {
  background-color: alpha(#2ecc71, 0.22);
  border-color: alpha(#2ecc71, 0.85);
}

entry.seed-unwinnable {
  background-color: alpha(#e74c3c, 0.22);
  border-color: alpha(#e74c3c, 0.85);
}
"#;

pub const THEME_PRESET_MAGMA: &'static str = r#"/* Magma Core
Lava-intense signature preset.
Target map:
  1) Global surfaces/text: window, headerbar, popover, frame, label
  2) Board skin: .board-background
  3) Controls: button, entry, dropdown
  4) Card interaction states: .tableau-selected-card / .waste-selected-card / focus classes
  5) Slot styling: .card-slot and drop targets
  6) Extras: status text, hint/motion classes, seed result entries
*/
window, window background { background: #1a0500; }
box, label { color: #ffd9bd; }
headerbar, popover, menu, frame { background: rgba(30, 8, 2, 0.82); }

.board-background {
    background-image:
        radial-gradient(circle at 50% 50%, rgba(255, 69, 0, 0.15), transparent 70%),
        repeating-linear-gradient(
            45deg,
            #2b0a00 0px,
            #2b0a00 2px,
            #1a0500 2px,
            #1a0500 20px
        ),
        linear-gradient(180deg, #3d0f00, #1a0500);
    border: 3px solid #ff4500;
    box-shadow:
        inset 0 0 150px #8b0000,
        0 0 30px rgba(255, 69, 0, 0.4);
}

/* Give the buttons a "molten" look */
button {
    background: linear-gradient(180deg, #ff8c00, #ff4500);
    color: #1a0500;
    font-weight: bold;
    border-radius: 10px;
    border: 1px solid #ff0000;
    box-shadow: 0 4px 15px rgba(255, 0, 0, 0.5);
    transition: all 200ms ease-in-out;
}

button:hover {
    background: #ff0000;
    color: #ffffff;
    box-shadow: 0 0 20px #ff4500;
    transform: translateY(-2px);
}

button:active {
    background: linear-gradient(180deg, #ff4500, #ff8c00);
}

.hud-toggle:checked {
    color: #ffd08a;
    border-color: #ff8c00;
    box-shadow: inset 0 0 0 1px rgba(255, 140, 0, 0.35), 0 0 14px rgba(255, 69, 0, 0.35);
    background-color: rgba(255, 69, 0, 0.20);
}

entry, combobox, dropdown, popover entry {
    color: #ffe7d2;
    background: rgba(35, 8, 2, 0.86);
    border: 1px solid rgba(255, 90, 30, 0.58);
}

.tableau-selected-card,
.waste-selected-card {
    box-shadow:
        0 0 25px #ff8c00,
        0 0 10px #ffffff;
    border: 2px solid #ffffff;
}

.smart-move-fail-flash {
    box-shadow:
        inset 0 0 0 3px #ff4500,
        0 0 18px rgba(255, 69, 0, 0.75);
    background-color: rgba(255, 69, 0, 0.28);
}

.keyboard-focus-card {
    box-shadow:
        inset 0 0 0 2px #2b0a00,
        inset 0 0 0 5px #fff5eb,
        inset 0 0 0 8px #ff8c00;
}

.keyboard-focus-empty {
    box-shadow: inset 0 0 0 3px #ff8c00;
    background-color: rgba(255, 69, 0, 0.16);
}

.card-slot {
    border: 2px solid #4d1100;
    background-color: rgba(255, 69, 0, 0.05);
}

.card-slot:drop(active),
.tableau-drop-target:drop(active) {
    border: 2px solid #ff8c00;
    background-color: rgba(255, 140, 0, 0.12);
    box-shadow: none;
    outline: none;
}

/* Testing texture/opacity churn */
.slot-emoji {
    filter: drop-shadow(0 0 10px #ff4500);
    opacity: 0.6;
}

label.status-line,
.status-line {
    color: #ff8c00;
    text-shadow: 0 0 8px rgba(255, 140, 0, 0.6);
}

.stats-line,
.dim-label {
    color: rgba(255, 186, 130, 0.90);
}

.hint-invert {
    filter: invert(1);
    color: #ffb463;
    background-color: rgba(255, 140, 0, 0.14);
}

.motion-fly-card {
    box-shadow:
        0 2px 10px rgba(0, 0, 0, 0.48),
        0 0 0 1px rgba(255, 69, 0, 0.42);
}

entry.seed-winnable {
    background-color: rgba(46, 204, 113, 0.22);
    border-color: rgba(46, 204, 113, 0.85);
}

entry.seed-unwinnable {
    background-color: rgba(231, 76, 60, 0.22);
    border-color: rgba(231, 76, 60, 0.85);
}
"#;

pub const THEME_PRESET_MOONSTONE: &'static str = r#"/* Moonstone
Cardthropic Theme Reference Template
You can copy this into Custom CSS and tweak values section-by-section.
Target map:
  1) Global text/surfaces: window, box, label, headerbar, popover, frame
  2) Board surface: .board-background
  3) Inputs/buttons: button, entry, combobox, dropdown
  4) Status/HUD text: .status-line, .stats-line, .dim-label
  5) Card interaction states:
     .tableau-selected-card, .waste-selected-card, .smart-move-fail-flash,
     .keyboard-focus-card, .keyboard-focus-empty
  6) Empty-slot chrome: .card-slot, .card-slot:drop(active), .tableau-drop-target:drop(active)
  7) Motion accents: .hint-invert, .motion-fly-card
  8) Seed check fields: entry.seed-winnable / entry.seed-unwinnable
Note: actual face card artwork is SVG texture-based and not recolored by CSS.
*/
window,
window background,
box,
label {
  color: #f8fbff;
}

headerbar,
popover,
menu,
frame {
  background: rgba(35, 41, 52, 0.64);
}

.board-background {
  background-image:
    radial-gradient(circle at 14% 12%, rgba(210, 228, 255, 0.14), transparent 40%),
    radial-gradient(circle at 84% 84%, rgba(173, 201, 255, 0.13), transparent 42%),
    linear-gradient(160deg, #495163, #5c667b 52%, #353c4b 100%);
  border: 2px solid rgba(215, 229, 255, 0.40);
  box-shadow:
    0 0 0 1px alpha(rgba(215, 229, 255, 0.40), 0.22),
    0 12px 34px alpha(#000000, 0.46);
}

button {
  color: #f8fbff;
  border-radius: 11px;
  border: 1px solid alpha(rgba(215, 229, 255, 0.40), 0.85);
  background-image: linear-gradient(180deg, #8393af, #667792);
}

button:hover {
  border-color: alpha(#b8cbff, 0.90);
}

button:active {
  background-image: linear-gradient(180deg, #667792, #8393af);
}

.hud-toggle:checked {
  color: #b8cbff;
  border-color: alpha(#b8cbff, 0.75);
  box-shadow: inset 0 0 0 1px alpha(#b8cbff, 0.30);
  background-color: alpha(#b8cbff, 0.14);
}

entry,
combobox,
dropdown,
popover entry {
  color: #f8fbff;
  background: rgba(29, 35, 47, 0.82);
  border: 1px solid rgba(218, 231, 255, 0.42);
}

.status-line {
  color: #f8fbff;
  font-weight: 700;
}

.stats-line,
.dim-label {
  color: rgba(219, 231, 252, 0.84);
}

.tableau-selected-card,
.waste-selected-card {
  box-shadow:
    inset 0 0 0 2px alpha(#b8cbff, 0.95),
    0 0 10px alpha(#b8cbff, 0.34);
  background-color: alpha(#b8cbff, 0.12);
}

.smart-move-fail-flash {
  box-shadow:
    inset 0 0 0 3px alpha(#b8cbff, 1.0),
    0 0 14px alpha(#b8cbff, 0.55);
  background-color: alpha(#b8cbff, 0.24);
}

.keyboard-focus-card {
  box-shadow:
    inset 0 0 0 2px #0d1020,
    inset 0 0 0 5px #ffffff,
    inset 0 0 0 8px #b8cbff;
}

.keyboard-focus-empty {
  box-shadow: inset 0 0 0 3px alpha(#b8cbff, 0.92);
  background-color: alpha(#b8cbff, 0.12);
}

.card-slot {
  border: 1px solid alpha(rgba(215, 229, 255, 0.40), 0.62);
  background-color: alpha(rgba(215, 229, 255, 0.40), 0.08);
}

.card-slot:drop(active),
.tableau-drop-target:drop(active) {
  border: 1px solid alpha(#b8cbff, 0.62);
  background-color: alpha(#b8cbff, 0.10);
  box-shadow: none;
  outline: none;
}

.slot-emoji {
  opacity: 0.78;
}

.hint-invert {
  filter: invert(1);
  color: #b8cbff;
  background-color: alpha(#b8cbff, 0.12);
}

.motion-fly-card {
  box-shadow:
    0 2px 10px alpha(#000000, 0.44),
    0 0 0 1px alpha(#b8cbff, 0.30);
}

entry.seed-winnable {
  background-color: alpha(#2ecc71, 0.22);
  border-color: alpha(#2ecc71, 0.85);
}

entry.seed-unwinnable {
  background-color: alpha(#e74c3c, 0.22);
  border-color: alpha(#e74c3c, 0.85);
}
"#;

pub const THEME_PRESET_OPAL: &'static str = r#"/* Opal
Cardthropic Theme Reference Template
You can copy this into Custom CSS and tweak values section-by-section.
Target map:
  1) Global text/surfaces: window, box, label, headerbar, popover, frame
  2) Board surface: .board-background
  3) Inputs/buttons: button, entry, combobox, dropdown
  4) Status/HUD text: .status-line, .stats-line, .dim-label
  5) Card interaction states:
     .tableau-selected-card, .waste-selected-card, .smart-move-fail-flash,
     .keyboard-focus-card, .keyboard-focus-empty
  6) Empty-slot chrome: .card-slot, .card-slot:drop(active), .tableau-drop-target:drop(active)
  7) Motion accents: .hint-invert, .motion-fly-card
  8) Seed check fields: entry.seed-winnable / entry.seed-unwinnable
Note: actual face card artwork is SVG texture-based and not recolored by CSS.
*/
window,
window background,
box,
label {
  color: #fff7ff;
}

headerbar,
popover,
menu,
frame {
  background: rgba(44, 39, 54, 0.66);
}

.board-background {
  background-image:
    radial-gradient(circle at 14% 12%, rgba(255, 179, 228, 0.14), transparent 40%),
    radial-gradient(circle at 84% 84%, rgba(161, 255, 255, 0.12), transparent 42%),
    linear-gradient(160deg, #4a415b, #615470 52%, #373045 100%);
  border: 2px solid rgba(227, 211, 255, 0.38);
  box-shadow:
    0 0 0 1px alpha(rgba(227, 211, 255, 0.38), 0.22),
    0 12px 34px alpha(#000000, 0.46);
}

button {
  color: #fff7ff;
  border-radius: 11px;
  border: 1px solid alpha(rgba(227, 211, 255, 0.38), 0.85);
  background-image: linear-gradient(180deg, #9d87bf, #78679a);
}

button:hover {
  border-color: alpha(#d2b7ff, 0.90);
}

button:active {
  background-image: linear-gradient(180deg, #78679a, #9d87bf);
}

.hud-toggle:checked {
  color: #d2b7ff;
  border-color: alpha(#d2b7ff, 0.75);
  box-shadow: inset 0 0 0 1px alpha(#d2b7ff, 0.30);
  background-color: alpha(#d2b7ff, 0.14);
}

entry,
combobox,
dropdown,
popover entry {
  color: #fff7ff;
  background: rgba(38, 33, 47, 0.82);
  border: 1px solid rgba(234, 221, 255, 0.40);
}

.status-line {
  color: #fff7ff;
  font-weight: 700;
}

.stats-line,
.dim-label {
  color: rgba(234, 221, 255, 0.84);
}

.tableau-selected-card,
.waste-selected-card {
  box-shadow:
    inset 0 0 0 2px alpha(#d2b7ff, 0.95),
    0 0 10px alpha(#d2b7ff, 0.34);
  background-color: alpha(#d2b7ff, 0.12);
}

.smart-move-fail-flash {
  box-shadow:
    inset 0 0 0 3px alpha(#d2b7ff, 1.0),
    0 0 14px alpha(#d2b7ff, 0.55);
  background-color: alpha(#d2b7ff, 0.24);
}

.keyboard-focus-card {
  box-shadow:
    inset 0 0 0 2px #0d1020,
    inset 0 0 0 5px #ffffff,
    inset 0 0 0 8px #d2b7ff;
}

.keyboard-focus-empty {
  box-shadow: inset 0 0 0 3px alpha(#d2b7ff, 0.92);
  background-color: alpha(#d2b7ff, 0.12);
}

.card-slot {
  border: 1px solid alpha(rgba(227, 211, 255, 0.38), 0.62);
  background-color: alpha(rgba(227, 211, 255, 0.38), 0.08);
}

.card-slot:drop(active),
.tableau-drop-target:drop(active) {
  border: 1px solid alpha(#d2b7ff, 0.62);
  background-color: alpha(#d2b7ff, 0.10);
  box-shadow: none;
  outline: none;
}

.slot-emoji {
  opacity: 0.78;
}

.hint-invert {
  filter: invert(1);
  color: #d2b7ff;
  background-color: alpha(#d2b7ff, 0.12);
}

.motion-fly-card {
  box-shadow:
    0 2px 10px alpha(#000000, 0.44),
    0 0 0 1px alpha(#d2b7ff, 0.30);
}

entry.seed-winnable {
  background-color: alpha(#2ecc71, 0.22);
  border-color: alpha(#2ecc71, 0.85);
}

entry.seed-unwinnable {
  background-color: alpha(#e74c3c, 0.22);
  border-color: alpha(#e74c3c, 0.85);
}
"#;

pub const THEME_PRESET_PEARL: &'static str = r#"/* Pearl
Cardthropic Theme Reference Template
You can copy this into Custom CSS and tweak values section-by-section.
Target map:
  1) Global text/surfaces: window, box, label, headerbar, popover, frame
  2) Board surface: .board-background
  3) Inputs/buttons: button, entry, combobox, dropdown
  4) Status/HUD text: .status-line, .stats-line, .dim-label
  5) Card interaction states:
     .tableau-selected-card, .waste-selected-card, .smart-move-fail-flash,
     .keyboard-focus-card, .keyboard-focus-empty
  6) Empty-slot chrome: .card-slot, .card-slot:drop(active), .tableau-drop-target:drop(active)
  7) Motion accents: .hint-invert, .motion-fly-card
  8) Seed check fields: entry.seed-winnable / entry.seed-unwinnable
Note: actual face card artwork is SVG texture-based and not recolored by CSS.
*/
window,
window background,
box,
label {
  color: #fffaf2;
}

headerbar,
popover,
menu,
frame {
  background: rgba(58, 50, 38, 0.60);
}

.board-background {
  background-image:
    radial-gradient(circle at 14% 12%, rgba(255, 238, 207, 0.16), transparent 40%),
    radial-gradient(circle at 84% 84%, rgba(214, 197, 168, 0.14), transparent 42%),
    linear-gradient(160deg, #6f6654, #8b816d 52%, #4a4235 100%);
  border: 2px solid rgba(250, 226, 188, 0.38);
  box-shadow:
    0 0 0 1px alpha(rgba(250, 226, 188, 0.38), 0.22),
    0 12px 34px alpha(#000000, 0.46);
}

button {
  color: #fffaf2;
  border-radius: 11px;
  border: 1px solid alpha(rgba(250, 226, 188, 0.38), 0.85);
  background-image: linear-gradient(180deg, #b89e78, #8f7858);
}

button:hover {
  border-color: alpha(#dec49d, 0.90);
}

button:active {
  background-image: linear-gradient(180deg, #8f7858, #b89e78);
}

.hud-toggle:checked {
  color: #dec49d;
  border-color: alpha(#dec49d, 0.75);
  box-shadow: inset 0 0 0 1px alpha(#dec49d, 0.30);
  background-color: alpha(#dec49d, 0.14);
}

entry,
combobox,
dropdown,
popover entry {
  color: #fffaf2;
  background: rgba(50, 43, 33, 0.78);
  border: 1px solid rgba(247, 224, 186, 0.42);
}

.status-line {
  color: #fffaf2;
  font-weight: 700;
}

.stats-line,
.dim-label {
  color: rgba(255, 233, 200, 0.84);
}

.tableau-selected-card,
.waste-selected-card {
  box-shadow:
    inset 0 0 0 2px alpha(#dec49d, 0.95),
    0 0 10px alpha(#dec49d, 0.34);
  background-color: alpha(#dec49d, 0.12);
}

.smart-move-fail-flash {
  box-shadow:
    inset 0 0 0 3px alpha(#dec49d, 1.0),
    0 0 14px alpha(#dec49d, 0.55);
  background-color: alpha(#dec49d, 0.24);
}

.keyboard-focus-card {
  box-shadow:
    inset 0 0 0 2px #0d1020,
    inset 0 0 0 5px #ffffff,
    inset 0 0 0 8px #dec49d;
}

.keyboard-focus-empty {
  box-shadow: inset 0 0 0 3px alpha(#dec49d, 0.92);
  background-color: alpha(#dec49d, 0.12);
}

.card-slot {
  border: 1px solid alpha(rgba(250, 226, 188, 0.38), 0.62);
  background-color: alpha(rgba(250, 226, 188, 0.38), 0.08);
}

.card-slot:drop(active),
.tableau-drop-target:drop(active) {
  border: 1px solid alpha(#dec49d, 0.62);
  background-color: alpha(#dec49d, 0.10);
  box-shadow: none;
  outline: none;
}

.slot-emoji {
  opacity: 0.78;
}

.hint-invert {
  filter: invert(1);
  color: #dec49d;
  background-color: alpha(#dec49d, 0.12);
}

.motion-fly-card {
  box-shadow:
    0 2px 10px alpha(#000000, 0.44),
    0 0 0 1px alpha(#dec49d, 0.30);
}

entry.seed-winnable {
  background-color: alpha(#2ecc71, 0.22);
  border-color: alpha(#2ecc71, 0.85);
}

entry.seed-unwinnable {
  background-color: alpha(#e74c3c, 0.22);
  border-color: alpha(#e74c3c, 0.85);
}
"#;

pub const THEME_PRESET_PERIDOT: &'static str = r#"/* Peridot
Cardthropic Theme Reference Template
You can copy this into Custom CSS and tweak values section-by-section.
Target map:
  1) Global text/surfaces: window, box, label, headerbar, popover, frame
  2) Board surface: .board-background
  3) Inputs/buttons: button, entry, combobox, dropdown
  4) Status/HUD text: .status-line, .stats-line, .dim-label
  5) Card interaction states:
     .tableau-selected-card, .waste-selected-card, .smart-move-fail-flash,
     .keyboard-focus-card, .keyboard-focus-empty
  6) Empty-slot chrome: .card-slot, .card-slot:drop(active), .tableau-drop-target:drop(active)
  7) Motion accents: .hint-invert, .motion-fly-card
  8) Seed check fields: entry.seed-winnable / entry.seed-unwinnable
Note: actual face card artwork is SVG texture-based and not recolored by CSS.
*/
window,
window background,
box,
label {
  color: #f8ffe8;
}

headerbar,
popover,
menu,
frame {
  background: rgba(37, 45, 19, 0.66);
}

.board-background {
  background-image:
    radial-gradient(circle at 14% 12%, rgba(210, 255, 121, 0.15), transparent 40%),
    radial-gradient(circle at 84% 84%, rgba(140, 193, 44, 0.14), transparent 42%),
    linear-gradient(160deg, #3b4f19, #4e6a22 52%, #283714 100%);
  border: 2px solid rgba(202, 236, 121, 0.40);
  box-shadow:
    0 0 0 1px alpha(rgba(202, 236, 121, 0.40), 0.22),
    0 12px 34px alpha(#000000, 0.46);
}

button {
  color: #f8ffe8;
  border-radius: 11px;
  border: 1px solid alpha(rgba(202, 236, 121, 0.40), 0.85);
  background-image: linear-gradient(180deg, #8caf35, #6c862a);
}

button:hover {
  border-color: alpha(#b7e94a, 0.90);
}

button:active {
  background-image: linear-gradient(180deg, #6c862a, #8caf35);
}

.hud-toggle:checked {
  color: #b7e94a;
  border-color: alpha(#b7e94a, 0.75);
  box-shadow: inset 0 0 0 1px alpha(#b7e94a, 0.30);
  background-color: alpha(#b7e94a, 0.14);
}

entry,
combobox,
dropdown,
popover entry {
  color: #f8ffe8;
  background: rgba(30, 38, 14, 0.84);
  border: 1px solid rgba(226, 250, 169, 0.42);
}

.status-line {
  color: #f8ffe8;
  font-weight: 700;
}

.stats-line,
.dim-label {
  color: rgba(226, 248, 178, 0.84);
}

.tableau-selected-card,
.waste-selected-card {
  box-shadow:
    inset 0 0 0 2px alpha(#b7e94a, 0.95),
    0 0 10px alpha(#b7e94a, 0.34);
  background-color: alpha(#b7e94a, 0.12);
}

.smart-move-fail-flash {
  box-shadow:
    inset 0 0 0 3px alpha(#b7e94a, 1.0),
    0 0 14px alpha(#b7e94a, 0.55);
  background-color: alpha(#b7e94a, 0.24);
}

.keyboard-focus-card {
  box-shadow:
    inset 0 0 0 2px #0d1020,
    inset 0 0 0 5px #ffffff,
    inset 0 0 0 8px #b7e94a;
}

.keyboard-focus-empty {
  box-shadow: inset 0 0 0 3px alpha(#b7e94a, 0.92);
  background-color: alpha(#b7e94a, 0.12);
}

.card-slot {
  border: 1px solid alpha(rgba(202, 236, 121, 0.40), 0.62);
  background-color: alpha(rgba(202, 236, 121, 0.40), 0.08);
}

.card-slot:drop(active),
.tableau-drop-target:drop(active) {
  border: 1px solid alpha(#b7e94a, 0.62);
  background-color: alpha(#b7e94a, 0.10);
  box-shadow: none;
  outline: none;
}

.slot-emoji {
  opacity: 0.78;
}

.hint-invert {
  filter: invert(1);
  color: #b7e94a;
  background-color: alpha(#b7e94a, 0.12);
}

.motion-fly-card {
  box-shadow:
    0 2px 10px alpha(#000000, 0.44),
    0 0 0 1px alpha(#b7e94a, 0.30);
}

entry.seed-winnable {
  background-color: alpha(#2ecc71, 0.22);
  border-color: alpha(#2ecc71, 0.85);
}

entry.seed-unwinnable {
  background-color: alpha(#e74c3c, 0.22);
  border-color: alpha(#e74c3c, 0.85);
}
"#;

pub const THEME_PRESET_RUBY: &'static str = r#"/* Ruby
Cardthropic Theme Reference Template
You can copy this into Custom CSS and tweak values section-by-section.
Target map:
  1) Global text/surfaces: window, box, label, headerbar, popover, frame
  2) Board surface: .board-background
  3) Inputs/buttons: button, entry, combobox, dropdown
  4) Status/HUD text: .status-line, .stats-line, .dim-label
  5) Card interaction states:
     .tableau-selected-card, .waste-selected-card, .smart-move-fail-flash,
     .keyboard-focus-card, .keyboard-focus-empty
  6) Empty-slot chrome: .card-slot, .card-slot:drop(active), .tableau-drop-target:drop(active)
  7) Motion accents: .hint-invert, .motion-fly-card
  8) Seed check fields: entry.seed-winnable / entry.seed-unwinnable
Note: actual face card artwork is SVG texture-based and not recolored by CSS.
*/
window,
window background,
box,
label {
  color: #fff1f6;
}

headerbar,
popover,
menu,
frame {
  background: rgba(47, 9, 24, 0.66);
}

.board-background {
  background-image:
    radial-gradient(circle at 14% 12%, rgba(255, 112, 160, 0.17), transparent 40%),
    radial-gradient(circle at 84% 84%, rgba(209, 22, 74, 0.16), transparent 42%),
    linear-gradient(160deg, #4d1028, #6f1738 52%, #310a1d 100%);
  border: 2px solid rgba(245, 123, 159, 0.40);
  box-shadow:
    0 0 0 1px alpha(rgba(245, 123, 159, 0.40), 0.22),
    0 12px 34px alpha(#000000, 0.46);
}

button {
  color: #fff1f6;
  border-radius: 11px;
  border: 1px solid alpha(rgba(245, 123, 159, 0.40), 0.85);
  background-image: linear-gradient(180deg, #c03a66, #8f274a);
}

button:hover {
  border-color: alpha(#f04f86, 0.90);
}

button:active {
  background-image: linear-gradient(180deg, #8f274a, #c03a66);
}

.hud-toggle:checked {
  color: #f04f86;
  border-color: alpha(#f04f86, 0.75);
  box-shadow: inset 0 0 0 1px alpha(#f04f86, 0.30);
  background-color: alpha(#f04f86, 0.14);
}

entry,
combobox,
dropdown,
popover entry {
  color: #fff1f6;
  background: rgba(39, 9, 22, 0.84);
  border: 1px solid rgba(255, 162, 198, 0.42);
}

.status-line {
  color: #fff1f6;
  font-weight: 700;
}

.stats-line,
.dim-label {
  color: rgba(255, 207, 226, 0.84);
}

.tableau-selected-card,
.waste-selected-card {
  box-shadow:
    inset 0 0 0 2px alpha(#f04f86, 0.95),
    0 0 10px alpha(#f04f86, 0.34);
  background-color: alpha(#f04f86, 0.12);
}

.smart-move-fail-flash {
  box-shadow:
    inset 0 0 0 3px alpha(#f04f86, 1.0),
    0 0 14px alpha(#f04f86, 0.55);
  background-color: alpha(#f04f86, 0.24);
}

.keyboard-focus-card {
  box-shadow:
    inset 0 0 0 2px #0d1020,
    inset 0 0 0 5px #ffffff,
    inset 0 0 0 8px #f04f86;
}

.keyboard-focus-empty {
  box-shadow: inset 0 0 0 3px alpha(#f04f86, 0.92);
  background-color: alpha(#f04f86, 0.12);
}

.card-slot {
  border: 1px solid alpha(rgba(245, 123, 159, 0.40), 0.62);
  background-color: alpha(rgba(245, 123, 159, 0.40), 0.08);
}

.card-slot:drop(active),
.tableau-drop-target:drop(active) {
  border: 1px solid alpha(#f04f86, 0.62);
  background-color: alpha(#f04f86, 0.10);
  box-shadow: none;
  outline: none;
}

.slot-emoji {
  opacity: 0.78;
}

.hint-invert {
  filter: invert(1);
  color: #f04f86;
  background-color: alpha(#f04f86, 0.12);
}

.motion-fly-card {
  box-shadow:
    0 2px 10px alpha(#000000, 0.44),
    0 0 0 1px alpha(#f04f86, 0.30);
}

entry.seed-winnable {
  background-color: alpha(#2ecc71, 0.22);
  border-color: alpha(#2ecc71, 0.85);
}

entry.seed-unwinnable {
  background-color: alpha(#e74c3c, 0.22);
  border-color: alpha(#e74c3c, 0.85);
}
"#;

pub const THEME_PRESET_SAPPHIRE: &'static str = r#"/* Sapphire
Cardthropic Theme Reference Template
You can copy this into Custom CSS and tweak values section-by-section.
Target map:
  1) Global text/surfaces: window, box, label, headerbar, popover, frame
  2) Board surface: .board-background
  3) Inputs/buttons: button, entry, combobox, dropdown
  4) Status/HUD text: .status-line, .stats-line, .dim-label
  5) Card interaction states:
     .tableau-selected-card, .waste-selected-card, .smart-move-fail-flash,
     .keyboard-focus-card, .keyboard-focus-empty
  6) Empty-slot chrome: .card-slot, .card-slot:drop(active), .tableau-drop-target:drop(active)
  7) Motion accents: .hint-invert, .motion-fly-card
  8) Seed check fields: entry.seed-winnable / entry.seed-unwinnable
Note: actual face card artwork is SVG texture-based and not recolored by CSS.
*/
window,
window background,
box,
label {
  color: #eef4ff;
}

headerbar,
popover,
menu,
frame {
  background: rgba(12, 24, 53, 0.68);
}

.board-background {
  background-image:
    radial-gradient(circle at 14% 12%, rgba(123, 174, 255, 0.16), transparent 40%),
    radial-gradient(circle at 84% 84%, rgba(66, 123, 224, 0.15), transparent 42%),
    linear-gradient(160deg, #122e66, #1a3e84 52%, #0d1e47 100%);
  border: 2px solid rgba(147, 190, 255, 0.42);
  box-shadow:
    0 0 0 1px alpha(rgba(147, 190, 255, 0.42), 0.22),
    0 12px 34px alpha(#000000, 0.46);
}

button {
  color: #eef4ff;
  border-radius: 11px;
  border: 1px solid alpha(rgba(147, 190, 255, 0.42), 0.85);
  background-image: linear-gradient(180deg, #356fcc, #2753a0);
}

button:hover {
  border-color: alpha(#67a6ff, 0.90);
}

button:active {
  background-image: linear-gradient(180deg, #2753a0, #356fcc);
}

.hud-toggle:checked {
  color: #67a6ff;
  border-color: alpha(#67a6ff, 0.75);
  box-shadow: inset 0 0 0 1px alpha(#67a6ff, 0.30);
  background-color: alpha(#67a6ff, 0.14);
}

entry,
combobox,
dropdown,
popover entry {
  color: #eef4ff;
  background: rgba(11, 22, 47, 0.84);
  border: 1px solid rgba(167, 203, 255, 0.42);
}

.status-line {
  color: #eef4ff;
  font-weight: 700;
}

.stats-line,
.dim-label {
  color: rgba(197, 220, 255, 0.84);
}

.tableau-selected-card,
.waste-selected-card {
  box-shadow:
    inset 0 0 0 2px alpha(#67a6ff, 0.95),
    0 0 10px alpha(#67a6ff, 0.34);
  background-color: alpha(#67a6ff, 0.12);
}

.smart-move-fail-flash {
  box-shadow:
    inset 0 0 0 3px alpha(#67a6ff, 1.0),
    0 0 14px alpha(#67a6ff, 0.55);
  background-color: alpha(#67a6ff, 0.24);
}

.keyboard-focus-card {
  box-shadow:
    inset 0 0 0 2px #0d1020,
    inset 0 0 0 5px #ffffff,
    inset 0 0 0 8px #67a6ff;
}

.keyboard-focus-empty {
  box-shadow: inset 0 0 0 3px alpha(#67a6ff, 0.92);
  background-color: alpha(#67a6ff, 0.12);
}

.card-slot {
  border: 1px solid alpha(rgba(147, 190, 255, 0.42), 0.62);
  background-color: alpha(rgba(147, 190, 255, 0.42), 0.08);
}

.card-slot:drop(active),
.tableau-drop-target:drop(active) {
  border: 1px solid alpha(#67a6ff, 0.62);
  background-color: alpha(#67a6ff, 0.10);
  box-shadow: none;
  outline: none;
}

.slot-emoji {
  opacity: 0.78;
}

.hint-invert {
  filter: invert(1);
  color: #67a6ff;
  background-color: alpha(#67a6ff, 0.12);
}

.motion-fly-card {
  box-shadow:
    0 2px 10px alpha(#000000, 0.44),
    0 0 0 1px alpha(#67a6ff, 0.30);
}

entry.seed-winnable {
  background-color: alpha(#2ecc71, 0.22);
  border-color: alpha(#2ecc71, 0.85);
}

entry.seed-unwinnable {
  background-color: alpha(#e74c3c, 0.22);
  border-color: alpha(#e74c3c, 0.85);
}
"#;

pub const THEME_PRESET_TOPAZ: &'static str = r#"/* Topaz
Cardthropic Theme Reference Template
You can copy this into Custom CSS and tweak values section-by-section.
Target map:
  1) Global text/surfaces: window, box, label, headerbar, popover, frame
  2) Board surface: .board-background
  3) Inputs/buttons: button, entry, combobox, dropdown
  4) Status/HUD text: .status-line, .stats-line, .dim-label
  5) Card interaction states:
     .tableau-selected-card, .waste-selected-card, .smart-move-fail-flash,
     .keyboard-focus-card, .keyboard-focus-empty
  6) Empty-slot chrome: .card-slot, .card-slot:drop(active), .tableau-drop-target:drop(active)
  7) Motion accents: .hint-invert, .motion-fly-card
  8) Seed check fields: entry.seed-winnable / entry.seed-unwinnable
Note: actual face card artwork is SVG texture-based and not recolored by CSS.
*/
window,
window background,
box,
label {
  color: #fff8ec;
}

headerbar,
popover,
menu,
frame {
  background: rgba(66, 38, 14, 0.66);
}

.board-background {
  background-image:
    radial-gradient(circle at 14% 12%, rgba(255, 196, 112, 0.16), transparent 40%),
    radial-gradient(circle at 84% 84%, rgba(231, 135, 38, 0.14), transparent 42%),
    linear-gradient(160deg, #5d3510, #7b4a15 52%, #46280d 100%);
  border: 2px solid rgba(250, 182, 109, 0.40);
  box-shadow:
    0 0 0 1px alpha(rgba(250, 182, 109, 0.40), 0.22),
    0 12px 34px alpha(#000000, 0.46);
}

button {
  color: #fff8ec;
  border-radius: 11px;
  border: 1px solid alpha(rgba(250, 182, 109, 0.40), 0.85);
  background-image: linear-gradient(180deg, #c57f2a, #9d6520);
}

button:hover {
  border-color: alpha(#ffbd59, 0.90);
}

button:active {
  background-image: linear-gradient(180deg, #9d6520, #c57f2a);
}

.hud-toggle:checked {
  color: #ffbd59;
  border-color: alpha(#ffbd59, 0.75);
  box-shadow: inset 0 0 0 1px alpha(#ffbd59, 0.30);
  background-color: alpha(#ffbd59, 0.14);
}

entry,
combobox,
dropdown,
popover entry {
  color: #fff8ec;
  background: rgba(57, 33, 12, 0.82);
  border: 1px solid rgba(255, 207, 143, 0.42);
}

.status-line {
  color: #fff8ec;
  font-weight: 700;
}

.stats-line,
.dim-label {
  color: rgba(255, 220, 166, 0.84);
}

.tableau-selected-card,
.waste-selected-card {
  box-shadow:
    inset 0 0 0 2px alpha(#ffbd59, 0.95),
    0 0 10px alpha(#ffbd59, 0.34);
  background-color: alpha(#ffbd59, 0.12);
}

.smart-move-fail-flash {
  box-shadow:
    inset 0 0 0 3px alpha(#ffbd59, 1.0),
    0 0 14px alpha(#ffbd59, 0.55);
  background-color: alpha(#ffbd59, 0.24);
}

.keyboard-focus-card {
  box-shadow:
    inset 0 0 0 2px #0d1020,
    inset 0 0 0 5px #ffffff,
    inset 0 0 0 8px #ffbd59;
}

.keyboard-focus-empty {
  box-shadow: inset 0 0 0 3px alpha(#ffbd59, 0.92);
  background-color: alpha(#ffbd59, 0.12);
}

.card-slot {
  border: 1px solid alpha(rgba(250, 182, 109, 0.40), 0.62);
  background-color: alpha(rgba(250, 182, 109, 0.40), 0.08);
}

.card-slot:drop(active),
.tableau-drop-target:drop(active) {
  border: 1px solid alpha(#ffbd59, 0.62);
  background-color: alpha(#ffbd59, 0.10);
  box-shadow: none;
  outline: none;
}

.slot-emoji {
  opacity: 0.78;
}

.hint-invert {
  filter: invert(1);
  color: #ffbd59;
  background-color: alpha(#ffbd59, 0.12);
}

.motion-fly-card {
  box-shadow:
    0 2px 10px alpha(#000000, 0.44),
    0 0 0 1px alpha(#ffbd59, 0.30);
}

entry.seed-winnable {
  background-color: alpha(#2ecc71, 0.22);
  border-color: alpha(#2ecc71, 0.85);
}

entry.seed-unwinnable {
  background-color: alpha(#e74c3c, 0.22);
  border-color: alpha(#e74c3c, 0.85);
}
"#;

pub const THEME_PRESET_TURQUOISE: &'static str = r#"/* Turquoise
Cardthropic Theme Reference Template
You can copy this into Custom CSS and tweak values section-by-section.
Target map:
  1) Global text/surfaces: window, box, label, headerbar, popover, frame
  2) Board surface: .board-background
  3) Inputs/buttons: button, entry, combobox, dropdown
  4) Status/HUD text: .status-line, .stats-line, .dim-label
  5) Card interaction states:
     .tableau-selected-card, .waste-selected-card, .smart-move-fail-flash,
     .keyboard-focus-card, .keyboard-focus-empty
  6) Empty-slot chrome: .card-slot, .card-slot:drop(active), .tableau-drop-target:drop(active)
  7) Motion accents: .hint-invert, .motion-fly-card
  8) Seed check fields: entry.seed-winnable / entry.seed-unwinnable
Note: actual face card artwork is SVG texture-based and not recolored by CSS.
*/
window,
window background,
box,
label {
  color: #edfffe;
}

headerbar,
popover,
menu,
frame {
  background: rgba(10, 43, 47, 0.66);
}

.board-background {
  background-image:
    radial-gradient(circle at 14% 12%, rgba(128, 255, 244, 0.15), transparent 40%),
    radial-gradient(circle at 84% 84%, rgba(54, 196, 196, 0.14), transparent 42%),
    linear-gradient(160deg, #0d444a, #125b63 52%, #0a3237 100%);
  border: 2px solid rgba(144, 236, 230, 0.40);
  box-shadow:
    0 0 0 1px alpha(rgba(144, 236, 230, 0.40), 0.22),
    0 12px 34px alpha(#000000, 0.46);
}

button {
  color: #edfffe;
  border-radius: 11px;
  border: 1px solid alpha(rgba(144, 236, 230, 0.40), 0.85);
  background-image: linear-gradient(180deg, #2f9ea3, #237f83);
}

button:hover {
  border-color: alpha(#6ef7ed, 0.90);
}

button:active {
  background-image: linear-gradient(180deg, #237f83, #2f9ea3);
}

.hud-toggle:checked {
  color: #6ef7ed;
  border-color: alpha(#6ef7ed, 0.75);
  box-shadow: inset 0 0 0 1px alpha(#6ef7ed, 0.30);
  background-color: alpha(#6ef7ed, 0.14);
}

entry,
combobox,
dropdown,
popover entry {
  color: #edfffe;
  background: rgba(9, 34, 37, 0.82);
  border: 1px solid rgba(178, 255, 247, 0.40);
}

.status-line {
  color: #edfffe;
  font-weight: 700;
}

.stats-line,
.dim-label {
  color: rgba(200, 255, 250, 0.84);
}

.tableau-selected-card,
.waste-selected-card {
  box-shadow:
    inset 0 0 0 2px alpha(#6ef7ed, 0.95),
    0 0 10px alpha(#6ef7ed, 0.34);
  background-color: alpha(#6ef7ed, 0.12);
}

.smart-move-fail-flash {
  box-shadow:
    inset 0 0 0 3px alpha(#6ef7ed, 1.0),
    0 0 14px alpha(#6ef7ed, 0.55);
  background-color: alpha(#6ef7ed, 0.24);
}

.keyboard-focus-card {
  box-shadow:
    inset 0 0 0 2px #0d1020,
    inset 0 0 0 5px #ffffff,
    inset 0 0 0 8px #6ef7ed;
}

.keyboard-focus-empty {
  box-shadow: inset 0 0 0 3px alpha(#6ef7ed, 0.92);
  background-color: alpha(#6ef7ed, 0.12);
}

.card-slot {
  border: 1px solid alpha(rgba(144, 236, 230, 0.40), 0.62);
  background-color: alpha(rgba(144, 236, 230, 0.40), 0.08);
}

.card-slot:drop(active),
.tableau-drop-target:drop(active) {
  border: 1px solid alpha(#6ef7ed, 0.62);
  background-color: alpha(#6ef7ed, 0.10);
  box-shadow: none;
  outline: none;
}

.slot-emoji {
  opacity: 0.78;
}

.hint-invert {
  filter: invert(1);
  color: #6ef7ed;
  background-color: alpha(#6ef7ed, 0.12);
}

.motion-fly-card {
  box-shadow:
    0 2px 10px alpha(#000000, 0.44),
    0 0 0 1px alpha(#6ef7ed, 0.30);
}

entry.seed-winnable {
  background-color: alpha(#2ecc71, 0.22);
  border-color: alpha(#2ecc71, 0.85);
}

entry.seed-unwinnable {
  background-color: alpha(#e74c3c, 0.22);
  border-color: alpha(#e74c3c, 0.85);
}
"#;

pub const USERSTYLE_TEMPLATE_AMETHYST: &'static str = r#"/* Amethyst */
window, window background, box, label { color: #f8f1ff; }
.board-background {
  background-image:
    radial-gradient(circle at 15% 12%, rgba(196, 145, 255, 0.16), transparent 40%),
    radial-gradient(circle at 86% 84%, rgba(134, 92, 222, 0.15), transparent 42%),
    linear-gradient(160deg, #26123f, #34205a 52%, #1d1032 100%);
  border: 2px solid rgba(189, 154, 255, 0.38);
}
button { color: #fbf7ff; background-image: linear-gradient(180deg, #7752bb, #5f4197); border: 1px solid rgba(208, 182, 255, 0.42); }
.status-line { color: #e9d9ff; }
"#;

pub const USERSTYLE_TEMPLATE_AQUAMARINE: &'static str = r#"/* Aquamarine */
window,
window background,
box,
label {
  color: #eafff9;
}

.board-background {
  background-image:
    radial-gradient(circle at 14% 12%, rgba(138, 255, 229, 0.16), transparent 42%),
    radial-gradient(circle at 84% 82%, rgba(77, 230, 210, 0.15), transparent 44%),
    linear-gradient(160deg, #0e3a3d, #14555a 50%, #103337 100%);
  border: 2px solid rgba(170, 255, 236, 0.38);
  box-shadow: 0 14px 36px rgba(0, 0, 0, 0.44);
}

button {
  color: #f5fffd;
  border: 1px solid rgba(180, 255, 240, 0.42);
  background-image: linear-gradient(180deg, #2a8f97, #1f6f76);
}

.status-line {
  color: #c7fff4;
}
"#;

pub const USERSTYLE_TEMPLATE_ARCADE: &'static str = r#"/* Arcade */
window,
window background,
box,
label {
  color: #f4fbff;
}

.board-background {
  background-image:
    repeating-linear-gradient(
      45deg,
      rgba(0, 0, 0, 0.26),
      rgba(0, 0, 0, 0.26) 12px,
      rgba(255, 255, 255, 0.05) 12px,
      rgba(255, 255, 255, 0.05) 24px
    ),
    linear-gradient(160deg, #0f2f55, #133c2d);
  border: 3px solid rgba(255, 255, 255, 0.42);
  box-shadow: 0 16px 42px rgba(0, 0, 0, 0.50);
}

headerbar,
popover,
menu,
frame {
  background: rgba(10, 18, 34, 0.56);
}

button {
  color: #f4fbff;
  border-radius: 12px;
  border: 2px solid rgba(255, 255, 255, 0.30);
  background-image: linear-gradient(180deg, #244a73, #132a45);
  box-shadow: 0 2px 10px rgba(0, 0, 0, 0.42);
}

button:hover {
  border-color: rgba(255, 255, 255, 0.60);
}

entry,
combobox,
dropdown,
popover entry {
  color: #f8fcff;
  background: rgba(8, 15, 30, 0.58);
  border: 1px solid rgba(255, 255, 255, 0.42);
}

.status-line {
  color: #e7f7ff;
  font-weight: 700;
}

.stats-line,
.dim-label {
  color: rgba(226, 243, 255, 0.88);
}

.keyboard-focus-empty {
  box-shadow: inset 0 0 0 3px rgba(250, 204, 21, 0.88);
  background-color: rgba(250, 204, 21, 0.12);
}

.keyboard-focus-card {
  box-shadow:
    inset 0 0 0 2px #0d1020,
    inset 0 0 0 6px #ffffff,
    inset 0 0 0 9px #3dd9ff;
}

.card-slot {
  border: 1px solid rgba(255, 255, 255, 0.28);
  background-color: rgba(255, 255, 255, 0.05);
}

.slot-emoji {
  opacity: 0.86;
}
"#;

pub const USERSTYLE_TEMPLATE_CARDTHROPIC: &'static str = r#"/* Cardthropic Signature */
window,
window background,
box,
label {
  color: #f7fbff;
}

.board-background {
  background-image:
    radial-gradient(circle at 14% 14%, rgba(255, 86, 118, 0.16), transparent 34%),
    radial-gradient(circle at 82% 78%, rgba(255, 197, 88, 0.12), transparent 35%),
    linear-gradient(155deg, #1d2846 0%, #2b2152 42%, #182f3f 100%);
  border: 2px solid rgba(255, 255, 255, 0.36);
  box-shadow:
    inset 0 0 0 1px rgba(255, 255, 255, 0.14),
    0 18px 40px rgba(0, 0, 0, 0.45);
}

headerbar,
popover,
frame {
  background: rgba(20, 25, 45, 0.68);
}

button {
  color: #f8fbff;
  border-radius: 12px;
  border: 1px solid rgba(255, 255, 255, 0.34);
  background-image: linear-gradient(180deg, #3a4f87, #273762);
  box-shadow: 0 3px 10px rgba(0, 0, 0, 0.32);
}

button:hover {
  border-color: rgba(255, 255, 255, 0.58);
}

entry,
combobox,
dropdown,
popover entry {
  color: #f5f9ff;
  background: rgba(15, 20, 36, 0.72);
  border: 1px solid rgba(255, 255, 255, 0.40);
}

.status-line {
  color: #ffffff;
  font-weight: 700;
}

.stats-line,
.dim-label {
  color: rgba(232, 241, 255, 0.90);
}

.keyboard-focus-empty {
  box-shadow: inset 0 0 0 3px rgba(255, 108, 138, 0.88);
  background-color: rgba(255, 108, 138, 0.14);
}

.keyboard-focus-card {
  box-shadow:
    inset 0 0 0 2px #0d1020,
    inset 0 0 0 6px #ffffff,
    inset 0 0 0 9px #f8bd55;
}

.card-slot {
  border: 1px solid rgba(255, 255, 255, 0.28);
  background-color: rgba(255, 255, 255, 0.04);
}

.slot-emoji {
  opacity: 0.86;
}
"#;

pub const USERSTYLE_TEMPLATE_CARDTHROPIC_MIDNIGHT: &'static str = r#"/* Cardthropic Midnight */
window,
window background,
box,
label {
  color: #f8fbff;
}

.board-background {
  background-image:
    radial-gradient(circle at 18% 12%, rgba(82, 130, 255, 0.10), transparent 34%),
    radial-gradient(circle at 82% 82%, rgba(255, 94, 140, 0.08), transparent 36%),
    linear-gradient(160deg, #11182d 0%, #171a34 46%, #132033 100%);
  border: 2px solid rgba(225, 236, 255, 0.28);
  box-shadow:
    inset 0 0 0 1px rgba(255, 255, 255, 0.10),
    0 18px 42px rgba(0, 0, 0, 0.56);
}

headerbar,
popover,
frame {
  background: rgba(14, 18, 34, 0.80);
}

button {
  color: #f9fbff;
  border-radius: 12px;
  border: 1px solid rgba(225, 236, 255, 0.26);
  background-image: linear-gradient(180deg, #34466f, #253353);
  box-shadow: 0 3px 10px rgba(0, 0, 0, 0.38);
}

button:hover {
  border-color: rgba(255, 255, 255, 0.48);
}

entry,
combobox,
dropdown,
popover entry {
  color: #f5f8ff;
  background: rgba(9, 14, 28, 0.84);
  border: 1px solid rgba(221, 233, 255, 0.34);
}

.status-line {
  color: #ffffff;
  font-weight: 700;
}

.stats-line,
.dim-label {
  color: rgba(226, 238, 255, 0.86);
}

.keyboard-focus-empty {
  box-shadow: inset 0 0 0 3px rgba(130, 153, 255, 0.88);
  background-color: rgba(130, 153, 255, 0.14);
}

.keyboard-focus-card {
  box-shadow:
    inset 0 0 0 2px #0d1020,
    inset 0 0 0 6px #ffffff,
    inset 0 0 0 9px #8299ff;
}

.card-slot {
  border: 1px solid rgba(225, 236, 255, 0.24);
  background-color: rgba(255, 255, 255, 0.03);
}

.slot-emoji {
  opacity: 0.82;
}
"#;

pub const USERSTYLE_TEMPLATE_CITRINE: &'static str = r#"/* Citrine */
window,
window background,
box,
label {
  color: #fff8e7;
}

.board-background {
  background-image:
    radial-gradient(circle at 16% 14%, rgba(255, 223, 126, 0.18), transparent 42%),
    radial-gradient(circle at 84% 82%, rgba(255, 194, 72, 0.15), transparent 44%),
    linear-gradient(160deg, #4a2a08, #5c350f 48%, #3a2107 100%);
  border: 2px solid rgba(255, 219, 142, 0.38);
  box-shadow: 0 14px 36px rgba(0, 0, 0, 0.45);
}

button {
  color: #fff9ec;
  border: 1px solid rgba(255, 232, 170, 0.44);
  background-image: linear-gradient(180deg, #c08c2b, #9a6d1f);
}

.status-line {
  color: #ffe6a8;
}
"#;

pub const USERSTYLE_TEMPLATE_CRT: &'static str = r#"/* CRT */
window,
window background,
box,
label {
  color: #d9ffd0;
}

.board-background {
  background-image:
    repeating-linear-gradient(
      0deg,
      rgba(0, 255, 120, 0.08),
      rgba(0, 255, 120, 0.08) 1px,
      rgba(0, 0, 0, 0.0) 1px,
      rgba(0, 0, 0, 0.0) 3px
    ),
    radial-gradient(circle at 50% 30%, rgba(0, 255, 136, 0.10), transparent 65%),
    linear-gradient(180deg, #04120a, #021008);
  border: 2px solid rgba(85, 255, 170, 0.40);
  box-shadow:
    inset 0 0 24px rgba(0, 255, 120, 0.16),
    0 0 22px rgba(0, 255, 120, 0.25);
}

headerbar,
popover,
frame {
  background: rgba(2, 18, 10, 0.72);
}

button {
  color: #dcffd6;
  border-radius: 8px;
  border: 1px solid rgba(99, 255, 169, 0.45);
  background-image: linear-gradient(180deg, #08301b, #052313);
}

entry,
combobox,
dropdown,
popover entry {
  color: #d9ffd0;
  background: rgba(2, 15, 9, 0.86);
  border: 1px solid rgba(99, 255, 169, 0.38);
}

.status-line {
  color: #deffda;
  font-weight: 700;
}

.stats-line,
.dim-label {
  color: rgba(211, 255, 203, 0.82);
}

.keyboard-focus-empty {
  box-shadow: inset 0 0 0 3px rgba(16, 255, 134, 0.90);
  background-color: rgba(16, 255, 134, 0.12);
}

.card-slot {
  border: 1px solid rgba(90, 255, 164, 0.30);
  background-color: rgba(16, 255, 134, 0.04);
}

.slot-emoji {
  opacity: 0.84;
}
"#;

pub const USERSTYLE_TEMPLATE_DIAMOND: &'static str = r#"/* Diamond */
window, window background, box, label { color: #f5fbff; }
.board-background {
  background-image:
    radial-gradient(circle at 14% 12%, rgba(220, 242, 255, 0.20), transparent 40%),
    radial-gradient(circle at 84% 82%, rgba(170, 210, 255, 0.15), transparent 42%),
    linear-gradient(160deg, #273847, #304a60 52%, #20303d 100%);
  border: 2px solid rgba(198, 229, 255, 0.42);
}
button { color: #f7fcff; background-image: linear-gradient(180deg, #68839f, #516b85); border: 1px solid rgba(207, 232, 255, 0.40); }
.status-line { color: #d8edff; }
"#;

pub const USERSTYLE_TEMPLATE_EMERALD: &'static str = r#"/* Emerald */
window, window background, box, label { color: #effff4; }
.board-background {
  background-image:
    radial-gradient(circle at 16% 12%, rgba(131, 255, 171, 0.16), transparent 40%),
    radial-gradient(circle at 84% 84%, rgba(48, 180, 103, 0.15), transparent 42%),
    linear-gradient(160deg, #0f3624, #165138 52%, #0d2c1f 100%);
  border: 2px solid rgba(149, 242, 184, 0.36);
}
button { color: #f4fff7; background-image: linear-gradient(180deg, #2f9362, #22734d); border: 1px solid rgba(173, 255, 204, 0.38); }
.status-line { color: #ccf7dc; }
"#;

pub const USERSTYLE_TEMPLATE_FOREST: &'static str = r#"/* Forest */
window,
window background,
box,
label {
  color: #ebf6eb;
}

.board-background {
  background-image:
    radial-gradient(circle at 18% 15%, rgba(191, 255, 173, 0.12), transparent 40%),
    radial-gradient(circle at 82% 80%, rgba(54, 255, 188, 0.11), transparent 40%),
    linear-gradient(150deg, #183a24, #1d4f34);
  border: 2px solid rgba(205, 255, 227, 0.30);
  box-shadow: 0 14px 36px rgba(0, 0, 0, 0.45);
}

headerbar,
popover,
frame {
  background: rgba(17, 42, 28, 0.55);
}

button {
  color: #f2fff4;
  border-radius: 12px;
  border: 1px solid rgba(210, 255, 225, 0.30);
  background-image: linear-gradient(180deg, #21563a, #1a402d);
}

entry,
combobox,
dropdown,
popover entry {
  color: #f2fff4;
  background: rgba(12, 32, 22, 0.60);
  border: 1px solid rgba(209, 255, 223, 0.30);
}

.status-line {
  color: #e8ffe9;
}

.stats-line,
.dim-label {
  color: rgba(225, 255, 231, 0.84);
}

.keyboard-focus-empty {
  box-shadow: inset 0 0 0 3px rgba(74, 222, 128, 0.84);
  background-color: rgba(74, 222, 128, 0.12);
}

.card-slot {
  border: 1px solid rgba(216, 255, 229, 0.24);
  background-color: rgba(255, 255, 255, 0.03);
}

.slot-emoji {
  opacity: 0.84;
}
"#;

pub const USERSTYLE_TEMPLATE_GARNET: &'static str = r#"/* Garnet */
window, window background, box, label { color: #ffeef2; }
.board-background {
  background-image:
    radial-gradient(circle at 16% 14%, rgba(255, 112, 145, 0.16), transparent 42%),
    radial-gradient(circle at 84% 82%, rgba(176, 33, 69, 0.16), transparent 44%),
    linear-gradient(160deg, #2c0712, #3e0a1b 52%, #22060f 100%);
  border: 2px solid rgba(228, 102, 133, 0.42);
}
button { color: #fff4f7; background-image: linear-gradient(180deg, #9d2948, #7b1f39); border: 1px solid rgba(255, 165, 187, 0.40); }
.status-line { color: #ffd0db; }
"#;

pub const USERSTYLE_TEMPLATE_LIGHT_MODE: &'static str = r#"/* Light Mode */
window,
window background {
  background: #ffffff;
  color: #111111;
}

.board-background {
  background: #ffffff;
  border: 1px solid rgba(0, 0, 0, 0.10);
  box-shadow: 0 10px 24px rgba(0, 0, 0, 0.06);
}

box,
frame {
  color: #111111;
}

headerbar {
  background: #f6f6f7;
  color: #111111;
  border-bottom: 1px solid rgba(0, 0, 0, 0.08);
}

popover,
menu,
popover.background,
menu.background {
  background: #ffffff;
  color: #111111;
  border: 1px solid rgba(0, 0, 0, 0.12);
}

popover contents,
menu contents {
  background: #ffffff;
  color: #111111;
}

modelbutton,
menuitem,
menu item,
popover label {
  color: #111111;
}

entry,
combobox,
dropdown,
popover entry {
  color: #111111;
  background: #ffffff;
  border: 1px solid rgba(0, 0, 0, 0.16);
}

button {
  color: #111111;
  font-weight: 600;
  border-radius: 11px;
  border: 1px solid rgba(0, 0, 0, 0.14);
  background-image: linear-gradient(180deg, #ffffff, #f1f1f3);
  box-shadow:
    0 1px 2px rgba(0, 0, 0, 0.06),
    0 4px 10px rgba(0, 0, 0, 0.05);
}

button:hover {
  border-color: rgba(0, 0, 0, 0.22);
  background-image: linear-gradient(180deg, #ffffff, #ececef);
}

button:active {
  background-image: linear-gradient(180deg, #ececef, #ffffff);
}

.hud-toggle:checked {
  color: #005ecb;
  border-color: rgba(0, 94, 203, 0.40);
  background-image: linear-gradient(180deg, #eaf3ff, #dfeeff);
  box-shadow: inset 0 0 0 1px rgba(0, 94, 203, 0.20);
}

.status-line {
  color: #111111;
  font-weight: 700;
}

.stats-line,
.dim-label {
  color: rgba(0, 0, 0, 0.62);
}

.card-slot {
  border: 1px solid rgba(0, 0, 0, 0.20);
  background-color: #ffffff;
}

.tableau-selected-card,
.waste-selected-card {
  box-shadow:
    inset 0 0 0 2px rgba(0, 122, 255, 0.85),
    0 0 10px rgba(0, 122, 255, 0.18);
  background-color: rgba(0, 122, 255, 0.07);
}

.keyboard-focus-empty {
  box-shadow: inset 0 0 0 3px rgba(0, 122, 255, 0.60);
  background-color: rgba(0, 122, 255, 0.10);
}

.keyboard-focus-card {
  box-shadow:
    inset 0 0 0 2px #ffffff,
    inset 0 0 0 5px #101010,
    inset 0 0 0 8px #007aff;
}

.slot-emoji {
  opacity: 0.50;
}
"#;

pub const USERSTYLE_TEMPLATE_MAGMA: &'static str = r#"/* Magma Core */
window, window background { background: #1a0500; }

.board-background {
    background-image: 
        radial-gradient(circle at 50% 50%, rgba(255, 69, 0, 0.15), transparent 70%),
        repeating-linear-gradient(
            45deg,
            #2b0a00 0px,
            #2b0a00 2px,
            #1a0500 2px,
            #1a0500 20px
        ),
        linear-gradient(180deg, #3d0f00, #1a0500);
    border: 3px solid #ff4500;
    box-shadow: 
        inset 0 0 150px #8b0000,
        0 0 30px rgba(255, 69, 0, 0.4);
}

/* Give the buttons a "molten" look */
button {
    background: linear-gradient(180deg, #ff8c00, #ff4500);
    color: #1a0500;
    font-weight: bold;
    border-radius: 10px;
    border: 1px solid #ff0000;
    box-shadow: 0 4px 15px rgba(255, 0, 0, 0.5);
    transition: all 200ms ease-in-out;
}

button:hover {
    background: #ff0000;
    color: #ffffff;
    box-shadow: 0 0 20px #ff4500;
    transform: translateY(-2px);
}

.tableau-selected-card {
    box-shadow: 
        0 0 25px #ff8c00,
        0 0 10px #ffffff;
    border: 2px solid #ffffff;
}

.card-slot {
    border: 2px solid #4d1100;
    background-color: rgba(255, 69, 0, 0.05);
}

/* Testing texture/opacity churn */
.slot-emoji { 
    filter: drop-shadow(0 0 10px #ff4500);
    opacity: 0.6;
}

label.status-line {
    color: #ff8c00;
    text-shadow: 0 0 8px rgba(255, 140, 0, 0.6);
}"#;

pub const USERSTYLE_TEMPLATE_MOONSTONE: &'static str = r#"/* Moonstone */
window,
window background,
box,
label {
  color: #f3f7ff;
}

.board-background {
  background-image:
    radial-gradient(circle at 17% 13%, rgba(214, 230, 255, 0.16), transparent 42%),
    radial-gradient(circle at 83% 83%, rgba(170, 194, 255, 0.14), transparent 44%),
    linear-gradient(160deg, #1e2537, #2a3046 52%, #1a2233 100%);
  border: 2px solid rgba(206, 220, 255, 0.34);
  box-shadow: 0 14px 34px rgba(0, 0, 0, 0.46);
}

button {
  color: #f7faff;
  border: 1px solid rgba(210, 226, 255, 0.40);
  background-image: linear-gradient(180deg, #5b6e97, #455576);
}

.status-line {
  color: #deebff;
}
"#;

pub const USERSTYLE_TEMPLATE_NEON: &'static str = r#"/* Cardthropic */
window,
label {
  color: #fff4ff;
}

.board-background {
  background-image:
    radial-gradient(circle at 15% 10%, rgba(255, 0, 128, 0.32), transparent 40%),
    radial-gradient(circle at 85% 85%, rgba(0, 240, 255, 0.30), transparent 42%),
    linear-gradient(145deg, #3d1a6b, #0b3a6b);
  border: 2px solid rgba(255, 128, 230, 0.55);
  box-shadow:
    0 0 0 1px rgba(255, 255, 255, 0.22),
    0 0 26px rgba(255, 0, 170, 0.45),
    0 0 52px rgba(0, 210, 255, 0.32);
}

headerbar,
popover,
frame {
  background: rgba(22, 10, 38, 0.56);
}

button {
  color: #fff8ff;
  border-radius: 12px;
  border: 1px solid rgba(255, 255, 255, 0.28);
  background-image: linear-gradient(180deg, rgba(255, 255, 255, 0.20), rgba(255, 255, 255, 0.08));
}

entry,
combobox,
dropdown,
popover entry {
  background: rgba(14, 18, 32, 0.60);
  border: 1px solid rgba(255, 255, 255, 0.35);
}

.status-line {
  color: #ffe7fa;
  font-weight: 700;
}

.stats-line,
.dim-label {
  color: rgba(255, 226, 250, 0.84);
}

.keyboard-focus-empty {
  box-shadow: inset 0 0 0 3px rgba(236, 72, 153, 0.86);
  background-color: rgba(236, 72, 153, 0.14);
}

.card-slot {
  border: 1px solid rgba(255, 255, 255, 0.26);
  background-color: rgba(255, 255, 255, 0.05);
}

.slot-emoji {
  opacity: 0.90;
}
"#;

pub const USERSTYLE_TEMPLATE_NOIR: &'static str = r#"/* Noir */
window,
window background,
box,
label {
  color: #e8e8e8;
}

.board-background {
  background-image:
    linear-gradient(180deg, #1f1f1f, #111111),
    repeating-linear-gradient(
      90deg,
      rgba(255, 255, 255, 0.03),
      rgba(255, 255, 255, 0.03) 2px,
      transparent 2px,
      transparent 6px
    );
  border: 2px solid rgba(255, 255, 255, 0.16);
  box-shadow: 0 14px 36px rgba(0, 0, 0, 0.60);
}

headerbar,
popover,
frame {
  background: rgba(14, 14, 14, 0.66);
}

button {
  color: #f2f2f2;
  border-radius: 10px;
  border: 1px solid rgba(255, 255, 255, 0.25);
  background-image: linear-gradient(180deg, #2e2e2e, #202020);
}

entry,
combobox,
dropdown,
popover entry {
  color: #f4f4f4;
  background: rgba(12, 12, 12, 0.70);
  border: 1px solid rgba(255, 255, 255, 0.24);
}

.status-line {
  color: #fafafa;
}

.stats-line,
.dim-label {
  color: rgba(244, 244, 244, 0.80);
}

.keyboard-focus-empty {
  box-shadow: inset 0 0 0 3px rgba(180, 180, 180, 0.90);
  background-color: rgba(220, 220, 220, 0.10);
}

.card-slot {
  border: 1px solid rgba(255, 255, 255, 0.20);
  background-color: rgba(255, 255, 255, 0.02);
}

.slot-emoji {
  opacity: 0.72;
}
"#;

pub const USERSTYLE_TEMPLATE_OPAL: &'static str = r#"/* Opal */
window, window background, box, label { color: #fff7ff; }
.board-background {
  background-image:
    radial-gradient(circle at 12% 10%, rgba(255, 179, 228, 0.14), transparent 38%),
    radial-gradient(circle at 86% 86%, rgba(161, 255, 255, 0.14), transparent 40%),
    radial-gradient(circle at 50% 50%, rgba(197, 206, 255, 0.10), transparent 56%),
    linear-gradient(160deg, #3b3347, #4a405b 52%, #2f283a 100%);
  border: 2px solid rgba(226, 211, 255, 0.34);
}
button { color: #fffaff; background-image: linear-gradient(180deg, #8d79a8, #73638b); border: 1px solid rgba(233, 221, 255, 0.38); }
.status-line { color: #eddfff; }
"#;

pub const USERSTYLE_TEMPLATE_PEARL: &'static str = r#"/* Pearl */
window, window background, box, label { color: #fff8f0; }
.board-background {
  background-image:
    radial-gradient(circle at 14% 12%, rgba(255, 244, 229, 0.18), transparent 40%),
    radial-gradient(circle at 84% 84%, rgba(245, 226, 205, 0.16), transparent 44%),
    linear-gradient(160deg, #6c5e55, #7c6f65 52%, #584d45 100%);
  border: 2px solid rgba(248, 231, 213, 0.42);
}
button { color: #fffdf9; background-image: linear-gradient(180deg, #a48d78, #886f5d); border: 1px solid rgba(255, 237, 219, 0.40); }
.status-line { color: #ffe9d4; }
"#;

pub const USERSTYLE_TEMPLATE_PERIDOT: &'static str = r#"/* Peridot */
window, window background, box, label { color: #f8ffe8; }
.board-background {
  background-image:
    radial-gradient(circle at 15% 12%, rgba(210, 255, 121, 0.16), transparent 40%),
    radial-gradient(circle at 84% 82%, rgba(140, 193, 44, 0.15), transparent 42%),
    linear-gradient(160deg, #2d3f12, #3c5519 52%, #25350f 100%);
  border: 2px solid rgba(200, 236, 120, 0.38);
}
button { color: #fbffef; background-image: linear-gradient(180deg, #8cad35, #728e2b); border: 1px solid rgba(226, 250, 169, 0.42); }
.status-line { color: #e0f6b0; }
"#;

pub const USERSTYLE_TEMPLATE_RUBY: &'static str = r#"/* Ruby */
window, window background, box, label { color: #fff0f5; }
.board-background {
  background-image:
    radial-gradient(circle at 16% 14%, rgba(255, 112, 160, 0.16), transparent 42%),
    radial-gradient(circle at 84% 82%, rgba(209, 22, 74, 0.18), transparent 44%),
    linear-gradient(160deg, #300712, #490a1d 52%, #25060f 100%);
  border: 2px solid rgba(241, 88, 138, 0.42);
}
button { color: #fff5f8; background-image: linear-gradient(180deg, #bf2756, #971f44); border: 1px solid rgba(255, 166, 196, 0.42); }
.status-line { color: #ffc7db; }
"#;

pub const USERSTYLE_TEMPLATE_SAPPHIRE: &'static str = r#"/* Sapphire */
window,
window background,
box,
label {
  color: #eef4ff;
}

.board-background {
  background-image:
    radial-gradient(circle at 18% 15%, rgba(98, 166, 255, 0.16), transparent 42%),
    radial-gradient(circle at 85% 82%, rgba(53, 112, 255, 0.14), transparent 42%),
    linear-gradient(160deg, #0d1b4a, #10245d 48%, #0a173c 100%);
  border: 2px solid rgba(146, 187, 255, 0.42);
  box-shadow: 0 14px 36px rgba(0, 0, 0, 0.48);
}

button {
  color: #f7fbff;
  border: 1px solid rgba(170, 205, 255, 0.46);
  background-image: linear-gradient(180deg, #355dc2, #233f8a);
}

.status-line {
  color: #d6e7ff;
}
"#;

pub const USERSTYLE_TEMPLATE_SYSTEM: &'static str = r#"/* System
Minimal override: let GNOME theme drive appearance.
*/
.board-background {
  background-image: none;
  background-color: @window_bg_color;
}
"#;

pub const USERSTYLE_TEMPLATE_TERMINAL: &'static str = r#"/* Dark Mode */
window,
window background,
box,
label {
  color: #f4f4f4;
}

.board-background {
  background-image:
    linear-gradient(180deg, #1f2329, #15181d),
    repeating-linear-gradient(
      90deg,
      rgba(255, 255, 255, 0.03),
      rgba(255, 255, 255, 0.03) 1px,
      transparent 1px,
      transparent 8px
    );
  border: 2px solid rgba(255, 255, 255, 0.18);
  box-shadow: 0 10px 24px rgba(0, 0, 0, 0.50);
}

headerbar,
popover,
frame {
  background: rgba(20, 22, 28, 0.76);
}

button {
  color: #f0f0f0;
  border-radius: 6px;
  border: 1px solid rgba(255, 255, 255, 0.22);
  background-image: linear-gradient(180deg, #303642, #262b35);
}

entry,
combobox,
dropdown,
popover entry {
  color: #f0f0f0;
  background: rgba(23, 26, 33, 0.88);
  border: 1px solid rgba(255, 255, 255, 0.24);
}

.status-line {
  color: #ffffff;
}

.stats-line,
.dim-label {
  color: rgba(235, 235, 235, 0.78);
}

.keyboard-focus-empty {
  box-shadow: inset 0 0 0 3px rgba(125, 211, 252, 0.88);
  background-color: rgba(125, 211, 252, 0.12);
}

.card-slot {
  border: 1px solid rgba(255, 255, 255, 0.20);
  background-color: rgba(255, 255, 255, 0.03);
}

.slot-emoji {
  opacity: 0.76;
}
"#;

pub const USERSTYLE_TEMPLATE_TOPAZ: &'static str = r#"/* Topaz */
window, window background, box, label { color: #fff8ec; }
.board-background {
  background-image:
    radial-gradient(circle at 14% 12%, rgba(255, 196, 112, 0.16), transparent 40%),
    radial-gradient(circle at 84% 82%, rgba(231, 135, 38, 0.16), transparent 42%),
    linear-gradient(160deg, #4c2a0a, #5f3810 52%, #3d2208 100%);
  border: 2px solid rgba(249, 182, 109, 0.40);
}
button { color: #fff9ef; background-image: linear-gradient(180deg, #c57f2a, #a9681f); border: 1px solid rgba(255, 207, 143, 0.40); }
.status-line { color: #ffd9a4; }
"#;

pub const USERSTYLE_TEMPLATE_TURQUOISE: &'static str = r#"/* Turquoise */
window, window background, box, label { color: #edfffe; }
.board-background {
  background-image:
    radial-gradient(circle at 16% 12%, rgba(128, 255, 244, 0.16), transparent 40%),
    radial-gradient(circle at 84% 84%, rgba(54, 196, 196, 0.15), transparent 42%),
    linear-gradient(160deg, #0c3d43, #14535a 52%, #0a3136 100%);
  border: 2px solid rgba(144, 236, 230, 0.38);
}
button { color: #f4ffff; background-image: linear-gradient(180deg, #2f9ea3, #237f83); border: 1px solid rgba(178, 255, 247, 0.40); }
.status-line { color: #c5f6f1; }
"#;

} // verus!
