# liveserve_rs

A development server for static files that reloads the browser when a file changes.

- `src/` is the library: which file a request names, what is answered, when a burst of file
  changes becomes one reload, and which WebSocket clients stay. It is written in Verus, and the
  laws it keeps are proved in `src/laws.rs`.
- `app/` is the program around it: arguments, logging, HTTP, WebSockets and the file watcher.
- `tests/` runs the library on concrete values.

```shell
liveserve-rs --root ./public --port 3000 --spa-entry index.html
```

The port is 8080, the root directory `./public` and the entry file `index.html` where nothing
else is given. A request that names no file is answered with the entry file, if there is one; a
request whose path leads out of the root directory, by more `..` than names, finds nothing. Paths
are separated by `/`.
HTML files get a script that reloads the page; other files are served as they are.
