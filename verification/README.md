# quiettools

The verified core of QuietTools, a Windows tray utility with a colour
picker (`Ctrl`+`Shift`+`C`), a text extractor that runs Windows OCR over a
dragged screen region (`Ctrl`+`Alt`+`C`), and a window manager driven by the
`Win` key and the mouse.

- `src/` is the library, verified with Verus:
  - `text.rs`: folding of full-width forms and Cyrillic look-alikes, and the
    repair of OCR confusions such as `1920х1080` and `12 рх`;
  - `reading.rs`: trimming, ranking and merging the readings that several
    OCR engines return for one bitmap, what a bitmap gives when the
    installed languages cannot be listed, and choosing among recognition
    passes;
  - `image.rs`: BGRA buffers: nearest-neighbour enlargement, binarisation,
    the grey-level histogram;
  - `screen.rs`: the screen capture, cropping and colour lookup;
  - `overlay.rs`: the colour picker / text extractor overlay as a state
    machine, its layout and colour texts;
  - `window_manager.rs`: the window manager's state machine, snap zones,
    resizing and opacity;
  - `tray.rs`: the tray window's message dispatch and UTF-16 helpers;
  - `chars.rs`: character classes and string conversions.
- `app/` is the Windows program around it: Win32 windows, GDI painting,
  hooks, the clipboard, the registry, and the WinRT OCR engines. The grey
  conversion and Otsu's threshold use floating point and stay there too.
- `tests/` exercises the library on concrete values.
