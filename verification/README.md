# rsmdf

Reading ASAM MDF measurement files, versions 3 and 4, with every block
reader verified by Verus.

- `src/utils.rs`: decoding and encoding of fixed-width integers, byte order,
  and the XML text of comments.
- `src/record.rs`: data types of MDF version 3 channels and the records read
  from channel data.
- `src/mdf3/`, `src/mdf3.rs`: the blocks of version 3 files (identification,
  header, data groups, channel groups, channels, conversions, ...), their
  write-back, and `MDF3`, a whole file held in memory.
- `src/mdf4/`, `src/mdf4.rs`: the blocks of version 4 files, their links and
  chains, compressed data, and `MDF4`, a whole file held in memory.
- `src/mdf.rs`: the version of a file, the channel list entries, and looking
  a channel up by name.
- `app/`: the program around the library: reading files from disk, printing,
  signals and conversions in floating point, and the C interface.
