# bdengine-desktop

The logic of the BDEngine desktop application, verified with Verus.

`src/` is the library. It decides; it opens no file, socket, window or process.

| module | what it holds |
| --- | --- |
| `text` | trimming, searching, splitting, decimal numbers |
| `encoding` | Base64 |
| `release_channel` | the release channel and the configuration |
| `urls` | addresses: launch links, embedded pages, origins of the proxy |
| `launch` | what the application was launched with, and how the page learns of it |
| `files` | file names, paths, the save dialog |
| `app_state` | what the running application remembers |
| `clipboard`, `clipboard_items` | UTF-16 text, HTML and images on the clipboard |
| `updates` | the download of an update |
| `webview2` | the WebView2 runtime at the start |
| `discord`, `discord_presence` | what Discord shows, and the worker that keeps it up to date |
| `proxy_target`, `proxy_info`, `minecraft_proxy`, `proxy_connection` | the Minecraft proxy: targets, registry, start, clients, relaying |
| `lan` | Minecraft servers on the local network |

Work that alternates with the outside world is written as machines: a `step` takes
what happened and tells what to do next, and its contract is a transition function.
Laws about whole runs stand beside the machines as proof functions named `law_...`.

`tests/` runs the library with the outside crates. `app/` is the application around
the library: windows, commands, sockets, files, processes.
