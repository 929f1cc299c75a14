# Gridora Forge

Photo reports in the browser: bring pictures in, caption, turn and order them, choose a layout,
and print the report to PDF. Nothing leaves the browser.

The logic is a Verus library. Every function states in its contract what it returns or changes,
and Verus proves it, but for the calls that leave the library: the contracts of the four wrappers
in `codec` and `unicode`, which call the base64 crate and the Unicode tables of the standard
library, and of `String::push` are believed, not proved.

| Module | What it holds |
| --- | --- |
| `photo`, `reorder`, `drag`, `hit`, `scroll` | the list: photos and their captions, moving them by button, mouse or finger, what is drawn of it |
| `layout`, `pages` | the layouts, and photos spread over pages |
| `report`, `settings`, `template`, `filename` | the fields of a report, page margins, header and footer templates, file names |
| `import`, `compress`, `export`, `codec` | files on their way in and pictures on their way out |
| `print`, `sheet` | the document that the browser prints |
| `fidelity`, `sections` | what every printed document keeps: each photo, in its order, with its caption and rotation, one section per page |
| `toolbar` | the status bar and the buttons |
| `text`, `escape`, `number`, `double`, `unicode` | strings, HTML escaping, digits, comparing numbers |

`tests/` runs the library. `app/` is the page itself, written with Leptos: it asks the browser
for files, windows and events, hands them to the library, and shows what comes back. Arithmetic
with fractions (scaling pictures, the middle of a row, the speed of scrolling) is done there; the
library compares such numbers by their bit patterns.
