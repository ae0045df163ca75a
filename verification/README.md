# icon_extractor

The verified core of a desktop tool that pulls icons out of Windows executables
and shortcuts, fetches website favicons, and converts or saves the resulting
images. It is written in Verus. The library's logic in `src/` is proved by
Verus against its contracts; the calls into the `base64`, `image` and `url`
crates and into `std::path` go through a few small trusted wrappers, marked
`#[verifier::external_body]`, whose contracts are believed, not proved.

## Layout

- `src/` — the library:
  - `text`, `paths`: trimming, prefixes, ASCII case folding, decimal rendering,
    and file kinds by extension: `platform_file_kind` asks this platform's
    `std::path`, and `has_shortcut_extension` models `Path::extension` for
    platforms whose only separator is `/` (every platform but Windows).
  - `base64`, `data_url`: standard base64 (through the `base64` crate) and
    `data:` URLs, with the law that a saved data URL gives back its bytes.
  - `images`: decoding, resizing and encoding through the `image` crate; a
    decoded image is a `Raster` whose view holds its layout, size and pixels.
  - `convert`: converting an icon's PNG data URL to PNG, JPEG or ICO.
  - `ico`: every entry of a `.ico` file, each decoded on its own.
  - `icons`: per-icon pixel work (size checks, alpha from the mask, BGRA to
    RGBA, PNG data URL) and the final size-ordered list.
  - `sizes`: keeping one entry per size in ascending order.
  - `html`: finding icon `<link>` tags in a page.
  - `favicon`: reading the typed address (through the `url` crate), the order
    in which favicon addresses are tried, and turning downloads into favicons.
  - `shell`: what tray, menu and window events lead to.
- `tests/` — tests of the library on concrete values.
- `app/` — the Tauri application around the library: commands, HTTP downloads,
  file writing, window handling and the Win32 calls that read icons.
