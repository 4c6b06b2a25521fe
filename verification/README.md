# editor

The editing core of a small code editor, written in Verus and proved against
its contracts.

- `buffer`: a text buffer of UTF-8 lines with a cursor, a selection and syntax
  highlights. Its contracts speak of `BufferState`: the bytes of each line,
  the cursor and the selection. Columns are byte offsets.
- `buffer_system`: which edit a key press or mouse gesture asks of a buffer,
  and carrying it out.
- `buffer_laws`: properties that span operations (typing then backspace gives
  the text back, saving then loading gives the lines back, and more).
- `utf8_lines`: splitting text into lines and joining them, over UTF-8 bytes.
- `highlight`: highlighting passes of tree-sitter and the folding of their
  events into highlight ranges; a highlighted buffer's ranges are those of its
  current text after every edit.
- `word_boundaries`: the regex matches that word motions stop at.
- `event`, `cursor`, `shortcuts`, `ui_event_system`: keys, mouse buttons and
  what key presses type.
- `colorscheme`: colour schemes read from `#rrggbb` strings.
- `layout`: the tree that interface elements are laid out along.
- `scene`, `sprite`, `sprite_animator`, `shader_types`: scene entities,
  sprites and their animations, uniform values and the bindings that shader
  uniforms, images and samplers take.
- `app`: what the window's event loop does for each event, and when the
  systems' requests close the application.
- `renderer`: how a material's uniforms are packed into the uniform buffer and
  entries of a bind group, and how many bind groups a pipeline's layouts make.

`app/` is a terminal front end: it reads a file, turns input lines into key
presses and mouse gestures, prints the highlighted buffer and saves it. It also
holds the floating-point geometry (element placement, views, texture
coordinates, pointer positions) that the library does not hold.
