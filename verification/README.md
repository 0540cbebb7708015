# tui_tagger

A terminal file tagger: it indexes a directory tree into a SQLite database
(`.tui-tagger.db` at the top of the tree), lets the user browse it, tag files
and folders (tags may have a parent tag), search by path and by tag
expressions (`tag1&&tag2`, `tag1||tag2`, `!tag`), rename entries and play
them with `vlc`.

- `src/` is the verified library: how a search query is read and turned into
  SQL, which rows a directory listing keeps, which entries the index records,
  what every key does to the interface and which outside work it asks for,
  the texts and screen areas the interface shows, and the command line.
- `app/` is the program around it: the SQLite statements, the directory walk,
  the terminal, and the commands it starts.
- `tests/` exercises the library on concrete values.
