# syncr

Keeps copies of project folders in sync with a destination folder.

`src/` is the verified library: command-line dispatch (`args`), lexical path
handling on Unix paths held as bytes (`fs`), glob patterns and skip lists (`glob`, backed by the
`globber` crate), the configuration and its compiled form (`config`), the
decisions of a breadth-first directory walk (`dir_tree`), the classification
of project folders by weighted heuristics (`init`), project files and their
naming (`project`), the rules of a sync run (`sync`), the printed reports and help
texts (`report`, `help`) and text helpers (`util`).

`app/` is the program around it: reading and writing the aeon files, walking
the file system, copying files, asking for confirmation and printing.
