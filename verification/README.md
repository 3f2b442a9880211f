# cinnamon-wallpaper

Animated video wallpapers for the Cinnamon desktop, as a verified library with an
application around it.

`src/` holds what is decided and computed, with contracts that Verus proves:

| module | what it is about |
| --- | --- |
| `config` | settings, their defaults, where the file lives, the per-monitor table |
| `cli` | what the command line asks for, and in which order it is decided |
| `instance` | the single instance: socket, messages, becoming the primary one |
| `service` | which monitors show a wallpaper, requests, the pace of rendering |
| `desktop` | detecting Cinnamon, the monitors in screen order |
| `video` | pipelines, frames, the playback state |
| `window` | properties of the wallpaper window, pixels, the desktop icons |
| `active` | the process that shows the wallpaper, its start and its end |
| `library` | the video library, its names, pictures and removals |
| `preview` | which card plays, preview frames, their animation |
| `conversion` | qualities, result names, tool arguments, progress |
| `watch` | which changes matter, when the gallery is updated |
| `gallery` | the window's contents, the selected video, its messages |
| `gsettings_wallpaper` | Cinnamon's own settings, which are left alone |
| `text`, `paths` | text and path primitives |

`app/` is ordinary Rust: the command line, X11, GStreamer, GTK, files and processes. It
asks the library what to do, does it, and reports back. What needs floating point stays
there too: the duration of a video, and how far a conversion is, in percent and in the
text that goes with it; the library only sees to it that no percentage is above a hundred.
So does what other libraries read and write: the configuration file's format, and the
command line.

Paths are text in the library. A path that is not valid Unicode is handed over with
replacement characters, except where the configuration is concerned, which cannot hold
such a path.
