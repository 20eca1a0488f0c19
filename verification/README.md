# bevy_native

The rules of a native web UI layer for Bevy applications, verified with Verus.

`src/` is the verified library:

- `string_map` — an ordered map from strings to strings with distinct keys,
  viewed as a `Map<Seq<char>, Seq<char>>`; it carries declarations, attributes
  and route parameters. It is a vector of pairs with a proved invariant, since
  vstd gives `HashMap` a specification only for key types whose hashing it
  models, and `String` is not among them.
- `layout` — display ownership: the display mode of an element follows from
  its visibility, whether it is a horizontal or vertical list, and whether it is
  a label.
- `list_style` — the declarations of list containers (direction, alignment,
  gap, wrapping).
- `base_style` — the base rendering of a control: element, attributes and
  declarations.
- `refresh` — laws on how base and list refreshes share an element.
- `style_sheet` — reading, merging and writing an element's `style` attribute.
- `routing` — routes as URLs, browser paths as routes, router updates.
- `events` — decoding the markers the browser leaves on elements; the show
  transition of a control.
- `dom` — element ids and selectors, and small page facts.
- `text` — decimal numerals, white space and cutting text at a separator.

`app/` holds the Bevy plugin and systems and the browser glue: it reads
components and the document, hands plain values to the library, and writes
back what the library decides. Numbers of the scene (sizes, positions,
colours) are floating point and are written as CSS text there.

`tests/` runs the library on concrete values.
