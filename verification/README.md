# deck

A terminal beside an agent: the conversation, its prompts and its subagents, the
panels that cover them, the layout of the panes, and the export of recorded sessions.

`src/` is the library. It decides and computes, and it draws into lists of drawing
steps; every function states what it does, and Verus proves it. Times are handed in as
milliseconds, and what has to be done outside comes back as a list of effects.

- `text`, `unicode`, `wrap`, `draw`, `keys`, `share`: strings, columns, styled text,
  drawing steps, keys, shares of a whole
- `command`, `history`, `impact`, `image_util`: slash commands, the input history, the
  look of an impact, pasted images
- `layout`: the tree of panes, its presets, and where its file is found
- `jobs_panel`, `jobs_render`, `fork_picker`, `auth_helper`: panels of their own
- `agent_panel`: the conversation
- `app`: the deck around it, from events, keys and the mouse to effects
- `transcript`, `export`: recorded turns, and training examples made of them

`app/` is the program around the library: files, the clipboard, the terminal.
