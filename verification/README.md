# aegis_portal

The desktop portal backend of the Aegis session: screen casts, idle
inhibition, notifications, application and file choosers, launchers,
background activity, settings, and the secret store.

The library under `src/` is written in Verus. It holds the rules and data of
the portal and says in contracts what each of them does: what a request is
answered, what a dialog becomes after a key, which paths a file chooser hands
out, what is kept of the secrets and who is given them. What has to be done
outside is an action that a function returns; what was seen outside is an
argument.

`app/` is the program around it: the bus interfaces, the compositor
connection, the windows, the files and the threads.

| modules | what they are about |
| --- | --- |
| `schema`, `codec`, `blob`, `client`, `lease` | the compositor protocol |
| `portal`, `request`, `options`, `settings`, `inhibit`, `notification`, `app_chooser`, `dynamic_launcher`, `background`, `state`, `files` | the portal interfaces |
| `session`, `screencast`, `cast` | screen casts |
| `vault`, `secret`, `secret_store`, `secret_service`, `objects`, `transport`, `unlock`, `pam` | secrets |
| `prompter`, `answers`, `dialogs`, `choose_app`, `chooser`, `file_chooser`, `location`, `edit` | prompts and their dialogs |
| `paths`, `pathset`, `text`, `textmap`, `random` | paths, text, maps and tokens |
