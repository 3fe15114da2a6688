# daenerys

STORM Daenerys is a desktop client for a STORM storage space: it lists the
root directories and the groups of the space, and lets an administrator edit
the access control lists and quotas of the directories and the members of
the groups, through the STORM HTTP API.

- `src/` is the verified library, checked by Verus: the values exchanged with
  the API, how its replies are read, the rules the interface applies (naming
  rules, quotas, group kinds, orderings of the lists, access control list
  edition, membership changes), and the model of the interface, a state
  machine that reacts to the user's actions and to the API's answers.
- `app/` is the graphical program around it (egui/eframe): it draws the
  panels, runs the HTTP calls and hands their results to the model.
- `tests/` exercises the library on concrete values.
